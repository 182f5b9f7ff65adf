//! Base64 for images and form encoding for query strings.
use vstd::prelude::*;

use base64::Engine;

verus! {

/// The character that Base64 uses for a number below 64.
pub open spec fn base64_char(sextet: int) -> char {
    if sextet < 26 {
        ('A' as int + sextet) as char
    } else if sextet < 52 {
        ('a' as int + (sextet - 26)) as char
    } else if sextet < 62 {
        ('0' as int + (sextet - 52)) as char
    } else if sextet == 62 {
        '+'
    } else {
        '/'
    }
}

/// The bits of three bytes in a row, as a number; bytes beyond the end count as zero.
pub open spec fn base64_group(data: Seq<u8>, group: int) -> int {
    let byte = |i: int| if 3 * group + i < data.len() { data[3 * group + i] as int } else { 0 };
    byte(0) * 65536 + byte(1) * 256 + byte(2)
}

/// Six of the 24 bits of a group.
pub open spec fn base64_sextet(bits: int, place: int) -> int {
    if place == 0 {
        bits / 262144 % 64
    } else if place == 1 {
        bits / 4096 % 64
    } else if place == 2 {
        bits / 64 % 64
    } else {
        bits % 64
    }
}

/// The number of characters for a number of bytes: four for every three bytes begun.
pub open spec fn base64_len(len: nat) -> nat {
    (len + 2) / 3 * 4
}

/// The character of a group at a place: there is one as long as the group has bits for it.
pub open spec fn base64_at(data: Seq<u8>, group: int, place: int) -> char {
    if 3 * group + place <= data.len() {
        base64_char(base64_sextet(base64_group(data, group), place))
    } else {
        '='
    }
}

/// Bytes in Base64 with the standard alphabet, filled up with `=`.
pub open spec fn base64_text(data: Seq<u8>) -> Seq<char> {
    Seq::new(base64_len(data.len()), |i: int| base64_at(data, i / 4, i % 4))
}

/// `base64::Engine::encode` of the engine `STANDARD`: the standard alphabet, with padding. It
/// panics where the text does not fit in memory that can be addressed.
#[verifier::external_body]
pub(crate) fn encode_base64(data: &[u8]) -> (text: String)
    requires
        base64_len(data@.len()) <= isize::MAX,
    ensures
        text@ == base64_text(data@),
{
    base64::engine::general_purpose::STANDARD.encode(data)
}

proof fn base64_char_is_injective(a: int, b: int)
    requires
        0 <= a < 64,
        0 <= b < 64,
        base64_char(a) == base64_char(b),
    ensures
        a == b,
        base64_char(a) != '=',
{
}

proof fn sextets_make_bits(bits: int)
    requires
        0 <= bits < 16777216,
    ensures
        bits == base64_sextet(bits, 0) * 262144 + base64_sextet(bits, 1) * 4096 + base64_sextet(bits, 2)
            * 64 + base64_sextet(bits, 3),
{
    let q = bits / 64;
    let r = q / 64;
    assert(bits / 4096 == r);
    assert(bits / 262144 == r / 64);
    assert(r / 64 < 64);
    assert((r / 64) % 64 == r / 64);
}

proof fn bits_make_bytes(b0: int, b1: int, b2: int)
    requires
        0 <= b0 < 256,
        0 <= b1 < 256,
        0 <= b2 < 256,
    ensures
        (b0 * 65536 + b1 * 256 + b2) / 65536 == b0,
        (b0 * 65536 + b1 * 256 + b2) / 256 % 256 == b1,
        (b0 * 65536 + b1 * 256 + b2) % 256 == b2,
        0 <= b0 * 65536 + b1 * 256 + b2 < 16777216,
{
    let bits = b0 * 65536 + b1 * 256 + b2;
    let high = b0 * 256 + b1;
    assert(bits == high * 256 + b2);
    assert(bits / 256 == high);
}

/// Different bytes have different texts: what was encoded can be told from the text.
pub proof fn base64_is_injective(a: Seq<u8>, b: Seq<u8>)
    requires
        base64_text(a) == base64_text(b),
    ensures
        a == b,
{
    base64_lengths_agree(a, b);
    base64_lengths_agree(b, a);
    assert forall|i: int| 0 <= i < a.len() implies a[i] == b[i] by {
        let g = i / 3;
        let bits_a = base64_group(a, g);
        let bits_b = base64_group(b, g);
        assert forall|place: int| 0 <= place < 4 implies #[trigger] base64_sextet(bits_a, place)
            == base64_sextet(bits_b, place) by {
            let k = 4 * g + place;
            assert(k / 4 == g && k % 4 == place);
            assert(k < base64_len(a.len()));
            assert(base64_text(a)[k] == base64_at(a, g, place));
            assert(base64_text(b)[k] == base64_at(b, g, place));
            if 3 * g + place <= a.len() {
                base64_char_is_injective(base64_sextet(bits_a, place), base64_sextet(bits_b, place));
            }
        }
        let byte_a = |j: int| if 3 * g + j < a.len() { a[3 * g + j] as int } else { 0 };
        let byte_b = |j: int| if 3 * g + j < b.len() { b[3 * g + j] as int } else { 0 };
        bits_make_bytes(byte_a(0), byte_a(1), byte_a(2));
        bits_make_bytes(byte_b(0), byte_b(1), byte_b(2));
        sextets_make_bits(bits_a);
        sextets_make_bits(bits_b);
        assert(base64_sextet(bits_a, 0) == base64_sextet(bits_b, 0));
        assert(base64_sextet(bits_a, 1) == base64_sextet(bits_b, 1));
        assert(base64_sextet(bits_a, 2) == base64_sextet(bits_b, 2));
        assert(base64_sextet(bits_a, 3) == base64_sextet(bits_b, 3));
        assert(bits_a == bits_b);
        assert(i == 3 * g + i % 3);
    }
    assert(a =~= b);
}

proof fn base64_lengths_agree(a: Seq<u8>, b: Seq<u8>)
    requires
        base64_text(a) == base64_text(b),
    ensures
        a.len() >= b.len(),
{
    assert(base64_text(a).len() == base64_len(a.len()));
    assert(base64_text(b).len() == base64_len(b.len()));
    if a.len() < b.len() {
        let g = (b.len() - 1) / 3;
        let place = b.len() - 3 * g;
        let k = 4 * g + place;
        assert(k / 4 == g && k % 4 == place);
        assert((b.len() + 2) / 3 == g + 1);
        assert(k < base64_len(b.len()));
        assert(base64_text(a)[k] == base64_at(a, g, place));
        assert(base64_text(b)[k] == base64_at(b, g, place));
    }
}

/// A byte that form encoding leaves as it is.
pub open spec fn form_safe(byte: u8) -> bool {
    let c = byte as char;
    'a' <= c <= 'z' || 'A' <= c <= 'Z' || '0' <= c <= '9' || c == '*' || c == '-' || c == '.' || c == '_'
}

/// A hexadecimal digit in upper case.
pub open spec fn hex_char(digit: int) -> char {
    if digit < 10 {
        ('0' as int + digit) as char
    } else {
        ('A' as int + (digit - 10)) as char
    }
}

/// A byte in form encoding: as it is, as a plus sign for a space, or by its number.
pub open spec fn form_byte(byte: u8) -> Seq<char> {
    if form_safe(byte) {
        seq![byte as char]
    } else if byte == 0x20 {
        seq!['+']
    } else {
        seq!['%', hex_char(byte as int / 16), hex_char(byte as int % 16)]
    }
}

/// Bytes in form encoding.
pub open spec fn form_bytes(bytes: Seq<u8>) -> Seq<char>
    decreases bytes.len(),
{
    if bytes.len() == 0 {
        Seq::empty()
    } else {
        form_bytes(bytes.drop_last()) + form_byte(bytes.last())
    }
}

/// A text in form encoding, by its UTF-8 bytes.
pub open spec fn form_text(text: Seq<char>) -> Seq<char> {
    form_bytes(vstd::utf8::encode_utf8(text))
}

/// Names and values in form encoding: `name=value`, with `&` between the pairs.
pub open spec fn form_pairs(pairs: Seq<(Seq<char>, Seq<char>)>) -> Seq<char>
    decreases pairs.len(),
{
    if pairs.len() == 0 {
        Seq::empty()
    } else {
        let pair = form_text(pairs.last().0) + seq!['='] + form_text(pairs.last().1);
        if pairs.len() == 1 {
            pair
        } else {
            form_pairs(pairs.drop_last()) + seq!['&'] + pair
        }
    }
}

/// `serde_urlencoded::to_string` on pairs of strings, which it can always write: the
/// `application/x-www-form-urlencoded` text of the pairs in their order.
#[verifier::external_body]
pub(crate) fn encode_form(pairs: &Vec<(String, String)>) -> (result: Result<String, String>)
    ensures
        result is Ok,
        result->Ok_0@ == form_pairs(
            pairs@.map_values(|pair: (String, String)| (pair.0@, pair.1@)),
        ),
{
    match serde_urlencoded::to_string(pairs) {
        Ok(text) => Ok(text),
        Err(error) => Err(error.to_string()),
    }
}

/// A character that may stand in form encoding.
pub open spec fn form_char(c: char) -> bool {
    'a' <= c <= 'z' || 'A' <= c <= 'Z' || '0' <= c <= '9' || c == '*' || c == '-' || c == '.' || c == '_'
        || c == '+' || c == '%' || c == '=' || c == '&'
}

/// Nothing but characters that may stand in form encoding.
pub open spec fn fits_address(text: Seq<char>) -> bool {
    forall|i: int| 0 <= i < text.len() ==> form_char(#[trigger] text[i])
}

proof fn joined_texts_fit(a: Seq<char>, b: Seq<char>)
    requires
        fits_address(a),
        fits_address(b),
    ensures
        fits_address(a + b),
{
    assert forall|i: int| 0 <= i < (a + b).len() implies form_char(#[trigger] (a + b)[i]) by {
        if i < a.len() {
            assert((a + b)[i] == a[i]);
        } else {
            assert((a + b)[i] == b[i - a.len()]);
        }
    }
}

/// Form encoding holds none but a few ASCII characters, so that it can stand in an address.
pub proof fn form_pairs_fit_address(pairs: Seq<(Seq<char>, Seq<char>)>)
    ensures
        fits_address(form_pairs(pairs)),
    decreases pairs.len(),
{
    if pairs.len() > 0 {
        let name = form_text(pairs.last().0);
        let value = form_text(pairs.last().1);
        form_pairs_fit_address(pairs.drop_last());
        form_bytes_fit_address(vstd::utf8::encode_utf8(pairs.last().0));
        form_bytes_fit_address(vstd::utf8::encode_utf8(pairs.last().1));
        joined_texts_fit(name, seq!['=']);
        joined_texts_fit(name + seq!['='], value);
        joined_texts_fit(form_pairs(pairs.drop_last()), seq!['&']);
        joined_texts_fit(form_pairs(pairs.drop_last()) + seq!['&'], name + seq!['='] + value);
    }
}

proof fn form_bytes_fit_address(bytes: Seq<u8>)
    ensures
        fits_address(form_bytes(bytes)),
    decreases bytes.len(),
{
    if bytes.len() > 0 {
        form_bytes_fit_address(bytes.drop_last());
        let byte = bytes.last();
        assert(fits_address(form_byte(byte))) by {
            assert(byte as int / 16 < 16);
            assert(byte as int % 16 < 16);
        }
        joined_texts_fit(form_bytes(bytes.drop_last()), form_byte(byte));
    }
}

/// The characters are those of the standard alphabet, in its order.
pub proof fn base64_has_standard_alphabet(sextet: int)
    requires
        0 <= sextet < 64,
    ensures
        base64_char(sextet)
            == "ABCDEFGHIJKLMNOPQRSTUVWXYZabcdefghijklmnopqrstuvwxyz0123456789+/"@[sextet],
{
    reveal_strlit("ABCDEFGHIJKLMNOPQRSTUVWXYZabcdefghijklmnopqrstuvwxyz0123456789+/");
}

/// Whole groups of three bytes are encoded one after the other: the text of what follows them
/// follows theirs.
pub proof fn base64_joins_groups(a: Seq<u8>, b: Seq<u8>)
    requires
        a.len() % 3 == 0,
    ensures
        base64_text(a + b) == base64_text(a) + base64_text(b),
{
    let groups = a.len() as int / 3;
    let joined = base64_text(a + b);
    let parts = base64_text(a) + base64_text(b);
    assert(base64_len(a.len()) == 4 * groups);
    assert((a.len() + b.len() + 2) / 3 == groups + (b.len() + 2) / 3);
    assert forall|i: int| 0 <= i < joined.len() implies joined[i] == parts[i] by {
        let g = i / 4;
        let place = i % 4;
        if i < 4 * groups {
            assert(g < groups);
            base64_group_is_kept(a + b, a, g, g);
        } else {
            assert((i - 4 * groups) / 4 == g - groups && (i - 4 * groups) % 4 == place);
            base64_group_is_kept(a + b, b, g, g - groups);
        }
    }
    assert(joined =~= parts);
}

proof fn base64_group_is_kept(a: Seq<u8>, b: Seq<u8>, g: int, h: int)
    requires
        a.len() - 3 * g == b.len() - 3 * h || (a.len() - 3 * g >= 3 && b.len() - 3 * h >= 3),
        3 * g < a.len() ==> a[3 * g] == b[3 * h],
        3 * g + 1 < a.len() ==> a[3 * g + 1] == b[3 * h + 1],
        3 * g + 2 < a.len() ==> a[3 * g + 2] == b[3 * h + 2],
    ensures
        base64_group(a, g) == base64_group(b, h),
{
}

/// Form encoding goes byte by byte: what follows is encoded after what stands before it.
proof fn form_bytes_follow_each_other(a: Seq<u8>, b: Seq<u8>)
    ensures
        form_bytes(a + b) == form_bytes(a) + form_bytes(b),
    decreases b.len(),
{
    if b.len() == 0 {
        assert(a + b =~= a);
        assert(form_bytes(a) + form_bytes(b) =~= form_bytes(a));
    } else {
        assert((a + b).drop_last() =~= a + b.drop_last());
        form_bytes_follow_each_other(a, b.drop_last());
        assert(form_bytes(a + b) =~= form_bytes(a) + form_bytes(b));
    }
}

proof fn first_byte_is_encoded_first(bytes: Seq<u8>)
    requires
        bytes.len() > 0,
    ensures
        form_bytes(bytes) == form_byte(bytes[0]) + form_bytes(bytes.drop_first()),
{
    let first = seq![bytes[0]];
    assert(bytes =~= first + bytes.drop_first());
    form_bytes_follow_each_other(first, bytes.drop_first());
    assert(first.drop_last() =~= Seq::<u8>::empty());
    assert(form_bytes(first.drop_last()) =~= Seq::<char>::empty());
    assert(form_bytes(first) == form_bytes(first.drop_last()) + form_byte(bytes[0]));
    assert(form_bytes(first) =~= form_byte(bytes[0]));
}

proof fn first_byte_is_told(a: u8, b: u8, x: Seq<char>, y: Seq<char>)
    requires
        form_byte(a) + x == form_byte(b) + y,
    ensures
        a == b,
        x == y,
{
    let left = form_byte(a) + x;
    let right = form_byte(b) + y;
    assert(left[0] == form_byte(a)[0] && right[0] == form_byte(b)[0]);
    if left[0] == '%' {
        assert(left[1] == form_byte(a)[1] && left[2] == form_byte(a)[2]);
        assert(right[1] == form_byte(b)[1] && right[2] == form_byte(b)[2]);
        assert(a as int / 16 == b as int / 16 && a as int % 16 == b as int % 16);
    }
    assert(form_byte(a) == form_byte(b));
    assert(x =~= left.skip(form_byte(a).len() as int));
    assert(y =~= right.skip(form_byte(b).len() as int));
}

proof fn form_bytes_are_told(a: Seq<u8>, b: Seq<u8>)
    requires
        form_bytes(a) == form_bytes(b),
    ensures
        a == b,
    decreases a.len(),
{
    if a.len() > 0 {
        first_byte_is_encoded_first(a);
    }
    if b.len() > 0 {
        first_byte_is_encoded_first(b);
    }
    if a.len() == 0 || b.len() == 0 {
        if a.len() > 0 {
            assert(form_bytes(a).len() > 0);
        }
        if b.len() > 0 {
            assert(form_bytes(b).len() > 0);
        }
        assert(a =~= b);
    } else {
        first_byte_is_told(a[0], b[0], form_bytes(a.drop_first()), form_bytes(b.drop_first()));
        form_bytes_are_told(a.drop_first(), b.drop_first());
        assert(a =~= seq![a[0]] + a.drop_first());
        assert(b =~= seq![b[0]] + b.drop_first());
    }
}

/// Different texts are encoded differently: what was encoded can be told from the encoding.
pub proof fn form_text_is_injective(a: Seq<char>, b: Seq<char>)
    requires
        form_text(a) == form_text(b),
    ensures
        a == b,
{
    form_bytes_are_told(vstd::utf8::encode_utf8(a), vstd::utf8::encode_utf8(b));
    vstd::utf8::encode_utf8_decode_utf8(a);
    vstd::utf8::encode_utf8_decode_utf8(b);
}

/// The encoding of a text holds neither of the characters that part names, values and pairs.
pub proof fn form_text_has_no_separator(text: Seq<char>)
    ensures
        !form_text(text).contains('='),
        !form_text(text).contains('&'),
{
    form_bytes_have_no_separator(vstd::utf8::encode_utf8(text));
}

proof fn form_bytes_have_no_separator(bytes: Seq<u8>)
    ensures
        !form_bytes(bytes).contains('='),
        !form_bytes(bytes).contains('&'),
    decreases bytes.len(),
{
    if bytes.len() > 0 {
        form_bytes_have_no_separator(bytes.drop_last());
        let before = form_bytes(bytes.drop_last());
        let last = form_byte(bytes.last());
        assert(bytes.last() as int / 16 < 16);
        assert(bytes.last() as int % 16 < 16);
        assert forall|i: int| 0 <= i < (before + last).len() implies (before + last)[i] != '='
            && (before + last)[i] != '&' by {
            if i < before.len() {
                assert((before + last)[i] == before[i]);
                assert(before.contains(before[i]));
            } else {
                assert((before + last)[i] == last[i - before.len()]);
            }
        }
    }
}

/// Two texts that are parted by the first separator are the same part by part.
pub proof fn parts_are_told(
    a: Seq<char>,
    x: Seq<char>,
    b: Seq<char>,
    y: Seq<char>,
    separator: char,
)
    requires
        a + seq![separator] + x == b + seq![separator] + y,
        !a.contains(separator),
        !b.contains(separator),
    ensures
        a == b,
        x == y,
{
    let left = a + seq![separator] + x;
    let right = b + seq![separator] + y;
    assert(left[a.len() as int] == separator);
    assert(right[b.len() as int] == separator);
    if a.len() < b.len() {
        assert(right[a.len() as int] == b[a.len() as int]);
        assert(b.contains(separator));
    }
    if b.len() < a.len() {
        assert(left[b.len() as int] == a[b.len() as int]);
        assert(a.contains(separator));
    }
    assert(a =~= left.take(a.len() as int));
    assert(b =~= right.take(b.len() as int));
    assert(x =~= left.skip(a.len() as int + 1));
    assert(y =~= right.skip(b.len() as int + 1));
}

} // verus!
