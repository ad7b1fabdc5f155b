//! Byte strings: big-endian numbers, hexadecimal, base64 and percent encoding.
use crate::errors::{ErrorView, RustProviderError};
use crate::text::{cat2, chars_of};
use vstd::prelude::*;
use vstd::string::*;
use vstd::utf8::*;

verus! {

/// The number that a byte string denotes, most significant byte first.
pub open spec fn be_value(s: Seq<u8>) -> nat
    decreases s.len(),
{
    if s.len() == 0 {
        0
    } else {
        be_value(s.drop_last()) * 256 + s.last() as nat
    }
}

/// The last `len` bytes of a number, most significant byte first.
pub open spec fn be_bytes(n: nat, len: nat) -> Seq<u8>
    decreases len,
{
    if len == 0 {
        Seq::empty()
    } else {
        be_bytes(n / 256, (len - 1) as nat).push((n % 256) as u8)
    }
}

/// A byte string has the length that was asked for.
pub proof fn be_bytes_len(n: nat, len: nat)
    ensures
        be_bytes(n, len).len() == len,
    decreases len,
{
    if len > 0 {
        be_bytes_len(n / 256, (len - 1) as nat);
    }
}

/// A byte string, cut or filled with zeros at the front, is the tail of its number.
proof fn be_bytes_of_value(s: Seq<u8>, len: nat)
    ensures
        be_bytes(be_value(s), len) == if s.len() >= len {
            s.skip(s.len() - len)
        } else {
            Seq::new((len - s.len()) as nat, |i: int| 0u8) + s
        },
    decreases len,
{
    let n = be_value(s);
    if len == 0 {
        assert(s.skip(s.len() as int) =~= Seq::<u8>::empty());
    } else if s.len() == 0 {
        be_bytes_of_value(s, (len - 1) as nat);
        assert(n / 256 == 0 && n % 256 == 0);
        assert(be_bytes(n, len) =~= Seq::new(len, |i: int| 0u8) + s);
    } else {
        let init = s.drop_last();
        be_bytes_of_value(init, (len - 1) as nat);
        assert(n / 256 == be_value(init) && n % 256 == s.last());
        if s.len() >= len {
            assert(be_bytes(n, len) =~= s.skip(s.len() - len));
        } else {
            assert(be_bytes(n, len) =~= Seq::new((len - s.len()) as nat, |i: int| 0u8) + s);
        }
    }
}

/// A number that fits in `len` bytes is given back by its bytes.
pub proof fn be_roundtrip(n: nat, len: nat)
    ensures
        be_value(be_bytes(n, len)) == n % (vstd::arithmetic::power::pow(256, len) as nat),
    decreases len,
{
    use_pow(len);
    if len > 0 {
        let p = vstd::arithmetic::power::pow(256, (len - 1) as nat);
        be_roundtrip(n / 256, (len - 1) as nat);
        use_pow((len - 1) as nat);
        let b = be_bytes(n, len);
        assert(b.drop_last() =~= be_bytes(n / 256, (len - 1) as nat));
        vstd::arithmetic::div_mod::lemma_breakdown(n as int, 256, p);
        vstd::arithmetic::power::lemma_pow_adds(256, 1, (len - 1) as nat);
        vstd::arithmetic::power::lemma_pow1(256);
        assert(256 * p == vstd::arithmetic::power::pow(256, len));
    } else {
        vstd::arithmetic::power::lemma_pow0(256);
        assert(be_value(be_bytes(n, 0)) == 0);
    }
}

proof fn use_pow(len: nat)
    ensures
        vstd::arithmetic::power::pow(256, len) > 0,
{
    vstd::arithmetic::power::lemma_pow_positive(256, len);
}

/// The first byte of a byte string bounds its number from below.
pub proof fn be_value_at_least_first(s: Seq<u8>)
    requires
        s.len() > 0,
    ensures
        be_value(s) >= s[0],
    decreases s.len(),
{
    if s.len() > 1 {
        be_value_at_least_first(s.drop_last());
        assert(s.drop_last()[0] == s[0]);
    } else {
        assert(s.drop_last() =~= Seq::<u8>::empty());
        assert(be_value(s.drop_last()) == 0);
    }
}

/// A byte string denotes less than a power of 256.
pub proof fn be_value_bound(s: Seq<u8>)
    ensures
        be_value(s) < vstd::arithmetic::power::pow(256, s.len()),
    decreases s.len(),
{
    if s.len() > 0 {
        let n = (s.len() - 1) as nat;
        be_value_bound(s.drop_last());
        vstd::arithmetic::power::lemma_pow_adds(256, n, 1);
        vstd::arithmetic::power::lemma_pow1(256);
        let p = vstd::arithmetic::power::pow(256, n);
        assert(be_value(s.drop_last()) * 256 + 256 <= p * 256) by (nonlinear_arith)
            requires
                be_value(s.drop_last()) + 1 <= p,
        ;
    } else {
        vstd::arithmetic::power::lemma_pow0(256);
    }
}

/// Zeros at the front do not change the number.
pub proof fn be_value_zero_front(s: Seq<u8>)
    ensures
        be_value(seq![0u8] + s) == be_value(s),
    decreases s.len(),
{
    let t = seq![0u8] + s;
    if s.len() == 0 {
        assert(t.drop_last() =~= Seq::<u8>::empty());
        assert(be_value(t.drop_last()) == 0);
        assert(t.last() == 0);
    } else {
        be_value_zero_front(s.drop_last());
        assert(t.drop_last() =~= seq![0u8] + s.drop_last());
        assert(t.last() == s.last());
    }
}

/// A number given by its bytes, as exactly `len` bytes: cut at the front when it
/// is longer, filled with zeros when it is shorter.
pub fn to_fixed_len(raw: &[u8], len: usize) -> (r: Vec<u8>)
    ensures
        r@ == be_bytes(be_value(raw@), len as nat),
        r@.len() == len,
{
    proof {
        be_bytes_of_value(raw@, len as nat);
        be_bytes_len(be_value(raw@), len as nat);
    }
    let mut out: Vec<u8> = Vec::new();
    let total: usize = raw.len();
    if total >= len {
        for i in total - len..total
            invariant
                len <= total == raw@.len(),
                out@ == raw@.subrange(total - len, i as int),
        {
            out.push(raw[i]);
            assert(out@ =~= raw@.subrange(total - len, i + 1));
        }
        assert(out@ =~= raw@.skip(total - len));
    } else {
        for i in 0..len - total
            invariant
                out@ == Seq::new(i as nat, |k: int| 0u8),
        {
            out.push(0);
            assert(out@ =~= Seq::new((i + 1) as nat, |k: int| 0u8));
        }
        append(&mut out, raw);
    }
    out
}

/// Appends bytes at the end.
pub fn append(out: &mut Vec<u8>, more: &[u8])
    ensures
        final(out)@ == old(out)@ + more@,
{
    let ghost was = out@;
    for i in 0..more.len()
        invariant
            out@ == was + more@.take(i as int),
    {
        out.push(more[i]);
        assert(out@ =~= was + more@.take(i + 1));
    }
    assert(more@.take(more@.len() as int) =~= more@);
}

/// An owned copy of bytes.
pub fn copy_bytes(data: &[u8]) -> (r: Vec<u8>)
    ensures
        r@ == data@,
{
    let mut out: Vec<u8> = Vec::new();
    append(&mut out, data);
    assert(out@ =~= data@);
    out
}

/// The bytes `from..to` of a byte string.
pub fn slice_bytes(data: &[u8], from: usize, to: usize) -> (r: Vec<u8>)
    requires
        from <= to <= data@.len(),
    ensures
        r@ == data@.subrange(from as int, to as int),
{
    let mut out: Vec<u8> = Vec::new();
    for i in from..to
        invariant
            from <= i <= to <= data@.len(),
            out@ == data@.subrange(from as int, i as int),
    {
        out.push(data[i]);
        assert(out@ =~= data@.subrange(from as int, i + 1));
    }
    out
}

/// Whether two byte strings are equal.
pub fn same_bytes(a: &[u8], b: &[u8]) -> (r: bool)
    ensures
        r == (a@ == b@),
{
    if a.len() != b.len() {
        return false;
    }
    for i in 0..a.len()
        invariant
            a@.len() == b@.len(),
            a@.take(i as int) == b@.take(i as int),
    {
        if a[i] != b[i] {
            return false;
        }
        assert(a@.take(i + 1) =~= a@.take(i as int).push(a@[i as int]));
        assert(b@.take(i + 1) =~= b@.take(i as int).push(b@[i as int]));
    }
    assert(a@.take(a@.len() as int) =~= a@);
    assert(b@.take(b@.len() as int) =~= b@);
    true
}

/// Several byte strings in a row.
pub open spec fn concat(parts: Seq<Seq<u8>>) -> Seq<u8>
    decreases parts.len(),
{
    if parts.len() == 0 {
        Seq::empty()
    } else {
        concat(parts.drop_last()) + parts.last()
    }
}

/// The contents of several byte strings.
pub open spec fn slices(parts: Seq<&[u8]>) -> Seq<Seq<u8>> {
    parts.map_values(|p: &[u8]| p@)
}

/// Puts several byte strings in a row.
pub fn concat_bytes(parts: &Vec<&[u8]>) -> (r: Vec<u8>)
    ensures
        r@ == concat(slices(parts@)),
{
    let mut out: Vec<u8> = Vec::new();
    assert(slices(parts@).take(0) =~= Seq::<Seq<u8>>::empty());
    for i in 0..parts.len()
        invariant
            out@ == concat(slices(parts@).take(i as int)),
    {
        append(&mut out, parts[i]);
        assert(slices(parts@).take(i + 1).drop_last() =~= slices(parts@).take(i as int));
    }
    assert(slices(parts@).take(parts@.len() as int) =~= slices(parts@));
    out
}

/// The base64 symbol of six bits.
pub open spec fn symbol(n: int) -> char {
    if n < 26 {
        (65 + n) as u8 as char
    } else if n < 52 {
        (71 + n) as u8 as char
    } else if n < 62 {
        (n - 4) as u8 as char
    } else if n == 62 {
        '+'
    } else {
        '/'
    }
}

/// Standard base64 with padding: four symbols for each three bytes, `=` in place
/// of the symbols that missing bytes would fill.
pub open spec fn base64(data: Seq<u8>) -> Seq<char>
    decreases data.len(),
{
    if data.len() == 0 {
        Seq::empty()
    } else {
        let n = data[0] * 65536 + (if data.len() > 1 {
            data[1] * 256
        } else {
            0
        }) + (if data.len() > 2 {
            data[2] as int
        } else {
            0
        });
        let group = seq![
            symbol(n / 262144),
            symbol(n / 4096 % 64),
            if data.len() > 1 {
                symbol(n / 64 % 64)
            } else {
                '='
            },
            if data.len() > 2 {
                symbol(n % 64)
            } else {
                '='
            },
        ];
        if data.len() > 3 {
            group + base64(data.skip(3))
        } else {
            group
        }
    }
}

/// What the standard base64 decoder makes of a text: bytes, or the text of its error.
pub uninterp spec fn base64_decoded(text: Seq<char>) -> Result<Seq<u8>, Seq<char>>;

/// The standard engine's `encode` of `base64`: the symbols of the bytes with
/// padding, from which the same engine's `decode` gives the bytes back.
#[verifier::external_body]
fn encoded(data: &[u8]) -> (r: String)
    ensures
        r@ == base64(data@),
        base64_decoded(r@) is Ok && base64_decoded(r@)->Ok_0 == data@,
{
    base64::Engine::encode(&base64::engine::general_purpose::STANDARD, data)
}

/// Bytes as base64 text, which is read back as the same bytes.
pub fn b64(data: &[u8]) -> (r: String)
    ensures
        r@ == base64(data@),
        base64_decoded(r@) is Ok && base64_decoded(r@)->Ok_0 == data@,
{
    encoded(data)
}

/// The standard engine's `decode` of `base64`: the bytes, or the text of the
/// error; both depend on the text alone.
#[verifier::external_body]
fn unb64(text: &str) -> (r: Result<Vec<u8>, String>)
    ensures
        base64_decoded(text@) == match r {
            Ok(data) => Ok(data@),
            Err(e) => Err(e@),
        },
{
    base64::Engine::decode(&base64::engine::general_purpose::STANDARD, text.as_bytes()).map_err(
        |e| e.to_string(),
    )
}

/// `String::from_utf8`: the text that the bytes encode, if they are valid UTF-8,
/// else the text of the error, of which nothing is said.
#[verifier::external_body]
pub(crate) fn utf8_text(data: Vec<u8>) -> (r: Result<String, String>)
    ensures
        decoded_text(data@) == match r {
            Ok(text) => Some(text@),
            Err(_) => None,
        },
{
    String::from_utf8(data).map_err(|e| e.to_string())
}

/// `String::from_utf8_lossy`: the text that the bytes encode; replacement
/// characters where they are not valid UTF-8, which is left unsaid.
#[verifier::external_body]
pub(crate) fn lossy_text(data: &[u8]) -> (r: String)
    ensures
        r@ == lossy(data@),
        valid_utf8(data@) ==> r@ == decode_utf8(data@),
{
    String::from_utf8_lossy(data).into_owned()
}

/// What `String::from_utf8_lossy` makes of bytes.
pub uninterp spec fn lossy(data: Seq<u8>) -> Seq<char>;

/// The text that bytes encode in UTF-8, if they do.
pub open spec fn decoded_text(data: Seq<u8>) -> Option<Seq<char>> {
    if valid_utf8(data) {
        Some(decode_utf8(data))
    } else {
        None
    }
}

/// The bytes of a base64 text, or the failure that tells why it has none.
pub open spec fn base64_bytes(text: Seq<char>) -> Result<Seq<u8>, ErrorView> {
    match base64_decoded(text) {
        Ok(data) => Ok(data),
        Err(e) => Err(ErrorView::Internal("base64 decode failed: "@ + e)),
    }
}

/// What an operation that gives bytes gave.
pub open spec fn bytes_outcome(r: Result<Vec<u8>, RustProviderError>) -> Result<
    Seq<u8>,
    ErrorView,
> {
    match r {
        Ok(data) => Ok(data@),
        Err(e) => Err(e.deep_view()),
    }
}

/// The bytes of a base64 text, or the failure that tells why it has none.
pub fn decode_base64_bytes(s: &str) -> (r: Result<Vec<u8>, RustProviderError>)
    ensures
        bytes_outcome(r) == base64_bytes(s@),
{
    match unb64(s) {
        Ok(data) => Ok(data),
        Err(e) => Err(RustProviderError::Internal(cat2("base64 decode failed: ", e.as_str()))),
    }
}

/// The text behind a base64 text, if there is one.
pub open spec fn base64_text(text: Seq<char>) -> Option<Seq<char>> {
    match base64_decoded(text) {
        Ok(data) => decoded_text(data),
        Err(_) => None,
    }
}

/// The text behind a base64 text, if there is one.
pub fn decode_base64_text(s: &str) -> (r: Option<String>)
    ensures
        r.deep_view() == base64_text(s@),
{
    match unb64(s) {
        Ok(data) => match utf8_text(data) {
            Ok(text) => Some(text),
            Err(_) => None,
        },
        Err(_) => None,
    }
}

/// A hexadecimal digit; letters from `ten` on.
pub open spec fn hex_digit(n: int, ten: char) -> char {
    if n < 10 {
        (48 + n) as u8 as char
    } else {
        (ten as u32 + n - 10) as u8 as char
    }
}

/// Whether a byte is an ASCII letter or digit.
pub open spec fn is_plain(b: u8) -> bool {
    48 <= b <= 57 || 65 <= b <= 90 || 97 <= b <= 122
}

/// A byte in percent encoding: letters and digits stand for themselves.
pub open spec fn percent_byte(b: u8) -> Seq<char> {
    if is_plain(b) {
        seq![b as char]
    } else {
        seq!['%', hex_digit(b as int / 16, 'A'), hex_digit(b as int % 16, 'A')]
    }
}

/// Bytes in percent encoding.
pub open spec fn percent(data: Seq<u8>) -> Seq<char>
    decreases data.len(),
{
    if data.len() == 0 {
        Seq::empty()
    } else {
        percent_byte(data[0]) + percent(data.skip(1))
    }
}

/// `percent_encoding::percent_encode` with the set `NON_ALPHANUMERIC`, as text:
/// every byte but ASCII letters and digits becomes `%` and two upper case
/// hexadecimal digits.
#[verifier::external_body]
fn percent_text(data: &[u8]) -> (r: String)
    ensures
        r@ == percent(data@),
{
    percent_encoding::percent_encode(data, percent_encoding::NON_ALPHANUMERIC).to_string()
}

/// A byte in a quoted path: as in percent encoding, with `+` for a space.
pub open spec fn quoted_byte(b: u8) -> Seq<char> {
    if b == 32 {
        seq!['+']
    } else {
        percent_byte(b)
    }
}

/// Bytes as a quoted path.
pub open spec fn quoted(data: Seq<u8>) -> Seq<char>
    decreases data.len(),
{
    if data.len() == 0 {
        Seq::empty()
    } else {
        quoted_byte(data[0]) + quoted(data.skip(1))
    }
}

/// The text with each `%20`, from the left, replaced by `+`.
spec fn spaces_as_plus(s: Seq<char>) -> Seq<char>
    decreases s.len(),
{
    if s.len() == 0 {
        s
    } else if s.len() >= 3 && s[0] == '%' && s[1] == '2' && s[2] == '0' {
        seq!['+'] + spaces_as_plus(s.skip(3))
    } else {
        seq![s[0]] + spaces_as_plus(s.skip(1))
    }
}

/// In percent encoding `%20` stands for spaces only.
proof fn plus_for_spaces(data: Seq<u8>)
    ensures
        spaces_as_plus(percent(data)) == quoted(data),
    decreases data.len(),
{
    let s = percent(data);
    if data.len() > 0 {
        let b = data[0];
        let rest = percent(data.skip(1));
        plus_for_spaces(data.skip(1));
        if is_plain(b) {
            assert(s[0] == b as char);
            assert(s[0] != '%');
            assert(s.skip(1) =~= rest);
        } else {
            let h1 = hex_digit(b as int / 16, 'A');
            let h2 = hex_digit(b as int % 16, 'A');
            assert(s[0] == '%' && s[1] == h1 && s[2] == h2);
            assert(s.skip(3) =~= rest);
            if b == 32 {
                assert(h1 == '2' && h2 == '0');
                assert(spaces_as_plus(s) =~= quoted(data));
            } else {
                assert(!(h1 == '2' && h2 == '0'));
                assert(h1 != '%' && h2 != '%');
                let t = s.skip(1);
                assert(t[0] == h1 && t.skip(1)[0] == h2);
                assert(t.skip(1).skip(1) =~= rest);
                assert(spaces_as_plus(t.skip(1)) =~= seq![h2] + spaces_as_plus(rest));
                assert(spaces_as_plus(t) =~= seq![h1] + spaces_as_plus(t.skip(1)));
                assert(spaces_as_plus(s) =~= seq!['%'] + spaces_as_plus(t));
                assert(spaces_as_plus(s) =~= quoted(data));
            }
        }
        assert(spaces_as_plus(s) =~= quoted(data));
    } else {
        assert(s =~= Seq::<char>::empty());
    }
}

/// A path as one component of a request's address: percent encoding of its
/// UTF-8 bytes, with `+` for spaces.
pub fn quote_plus(path: &str) -> (r: String)
    ensures
        r@ == quoted(encode_utf8(path@)),
{
    let encoded = percent_text(path.as_bytes());
    let chars = chars_of(encoded.as_str());
    let mut out: String = String::new();
    let mut i: usize = 0;
    let total: usize = chars.len();
    proof {
        plus_for_spaces(encode_utf8(path@));
        assert(encoded@.skip(0) =~= encoded@);
        assert(out@ + spaces_as_plus(encoded@) =~= spaces_as_plus(encoded@));
    }
    while i < total
        invariant
            chars@ == encoded@,
            total == chars@.len(),
            i <= total,
            out@ + spaces_as_plus(encoded@.skip(i as int)) == spaces_as_plus(encoded@),
        decreases total - i,
    {
        let ghost rest = encoded@.skip(i as int);
        let ghost was = out@;
        if total - i >= 3 && chars[i] == '%' && chars[i + 1] == '2' && chars[i + 2] == '0' {
            out.push('+');
            assert(rest.skip(3) =~= encoded@.skip(i + 3));
            assert(was + spaces_as_plus(rest) =~= out@ + spaces_as_plus(encoded@.skip(i + 3)));
            i = i + 3;
        } else {
            out.push(chars[i]);
            assert(rest.skip(1) =~= encoded@.skip(i + 1));
            assert(was + spaces_as_plus(rest) =~= out@ + spaces_as_plus(encoded@.skip(i + 1)));
            i = i + 1;
        }
    }
    assert(out@ =~= spaces_as_plus(encoded@));
    out
}

/// A quoted byte starts in a way that fixes the byte and its length.
proof fn quoted_byte_is_unique(a: u8, b: u8, x: Seq<char>, y: Seq<char>)
    requires
        quoted_byte(a) + x == quoted_byte(b) + y,
    ensures
        a == b,
        x == y,
{
    let s = quoted_byte(a) + x;
    let t = quoted_byte(b) + y;
    assert(s[0] == quoted_byte(a)[0] && t[0] == quoted_byte(b)[0]);
    if quoted_byte(a).len() == 3 {
        assert(s[0] == '%');
        assert(quoted_byte(b).len() == 3);
        assert(s[1] == hex_digit(a as int / 16, 'A') && s[2] == hex_digit(a as int % 16, 'A'));
        assert(t[1] == hex_digit(b as int / 16, 'A') && t[2] == hex_digit(b as int % 16, 'A'));
        assert(a as int / 16 == b as int / 16);
        assert(a as int % 16 == b as int % 16);
    } else {
        assert(quoted_byte(b).len() == 1);
    }
    assert(x =~= s.skip(quoted_byte(a).len() as int));
    assert(y =~= t.skip(quoted_byte(b).len() as int));
}

proof fn quoted_bytes_differ(a: Seq<u8>, b: Seq<u8>)
    requires
        quoted(a) == quoted(b),
    ensures
        a == b,
    decreases a.len(),
{
    if a.len() > 0 && b.len() > 0 {
        quoted_byte_is_unique(a[0], b[0], quoted(a.skip(1)), quoted(b.skip(1)));
        quoted_bytes_differ(a.skip(1), b.skip(1));
        assert(a =~= seq![a[0]] + a.skip(1));
        assert(b =~= seq![b[0]] + b.skip(1));
    } else if a.len() > 0 {
        assert(quoted(a).len() > 0);
    } else if b.len() > 0 {
        assert(quoted(b).len() > 0);
    } else {
        assert(a =~= b);
    }
}

/// Different paths are quoted differently.
pub proof fn quoting_is_injective(a: Seq<char>, b: Seq<char>)
    requires
        quoted(encode_utf8(a)) == quoted(encode_utf8(b)),
    ensures
        a == b,
{
    quoted_bytes_differ(encode_utf8(a), encode_utf8(b));
    encode_utf8_decode_utf8(a);
    encode_utf8_decode_utf8(b);
}

/// A quoted path is made of letters, digits, `%` and `+` only.
pub proof fn quoting_is_plain(data: Seq<u8>)
    ensures
        forall|i: int|
            0 <= i < quoted(data).len() ==> {
                let c = #[trigger] quoted(data)[i];
                c == '%' || c == '+' || '0' <= c <= '9' || 'A' <= c <= 'Z' || 'a' <= c <= 'z'
            },
    decreases data.len(),
{
    if data.len() > 0 {
        quoting_is_plain(data.skip(1));
        let head = quoted_byte(data[0]);
        let rest = quoted(data.skip(1));
        assert forall|i: int| 0 <= i < quoted(data).len() implies {
            let c = #[trigger] quoted(data)[i];
            c == '%' || c == '+' || '0' <= c <= '9' || 'A' <= c <= 'Z' || 'a' <= c <= 'z'
        } by {
            if i >= head.len() {
                assert(quoted(data)[i] == rest[i - head.len()]);
            } else {
                assert(quoted(data)[i] == head[i]);
            }
        }
    }
}

/// The number that a hexadecimal digit stands for.
pub open spec fn digit_value(c: char) -> int {
    if '0' <= c <= '9' {
        c as int - '0' as int
    } else if 'A' <= c <= 'F' {
        c as int - 'A' as int + 10
    } else {
        c as int - 'a' as int + 10
    }
}

/// The bytes that a quoted path stands for: `+` is a space, `%` and two digits a
/// byte, and any other character itself.
pub open spec fn unquoted(s: Seq<char>) -> Seq<u8>
    decreases s.len(),
{
    if s.len() == 0 {
        Seq::empty()
    } else if s[0] == '+' {
        seq![32u8] + unquoted(s.skip(1))
    } else if s[0] == '%' && s.len() >= 3 {
        seq![(16 * digit_value(s[1]) + digit_value(s[2])) as u8] + unquoted(s.skip(3))
    } else {
        seq![s[0] as u8] + unquoted(s.skip(1))
    }
}

/// A quoted path stands for the bytes that were quoted.
pub proof fn unquoting_gives_back(data: Seq<u8>)
    ensures
        unquoted(quoted(data)) == data,
    decreases data.len(),
{
    let s = quoted(data);
    if data.len() > 0 {
        let b = data[0];
        let rest = quoted(data.skip(1));
        unquoting_gives_back(data.skip(1));
        if b == 32 {
            assert(s.skip(1) =~= rest);
        } else if is_plain(b) {
            assert(s[0] == b as char);
            assert(s.skip(1) =~= rest);
        } else {
            let h1 = hex_digit(b as int / 16, 'A');
            let h2 = hex_digit(b as int % 16, 'A');
            assert(s[0] == '%' && s[1] == h1 && s[2] == h2);
            assert(s.skip(3) =~= rest);
            assert(digit_value(h1) == b as int / 16);
            assert(digit_value(h2) == b as int % 16);
        }
        assert(unquoted(s) =~= seq![b] + data.skip(1));
        assert(data =~= seq![b] + data.skip(1));
    } else {
        assert(unquoted(s) =~= data);
    }
}

/// A quoted path is read back as the path.
pub proof fn quoted_path_is_read_back(path: Seq<char>)
    ensures
        decoded_text(unquoted(quoted(encode_utf8(path)))) == Some(path),
{
    unquoting_gives_back(encode_utf8(path));
    vstd::utf8::encode_utf8_valid_utf8(path);
    encode_utf8_decode_utf8(path);
}

/// How often an item stands in a list.
pub open spec fn occurrences<T>(list: Seq<T>, item: T) -> nat
    decreases list.len(),
{
    if list.len() == 0 {
        0
    } else if list[0] == item {
        1 + occurrences(list.skip(1), item)
    } else {
        occurrences(list.skip(1), item)
    }
}

proof fn occurrences_of_sum<T>(a: Seq<T>, b: Seq<T>, item: T)
    ensures
        occurrences(a + b, item) == occurrences(a, item) + occurrences(b, item),
    decreases a.len(),
{
    if a.len() == 0 {
        assert(a + b =~= b);
    } else {
        occurrences_of_sum(a.skip(1), b, item);
        assert((a + b).skip(1) =~= a.skip(1) + b);
    }
}

proof fn occurrences_of_none<T>(list: Seq<T>, item: T)
    requires
        forall|i: int| 0 <= i < list.len() ==> list[i] != item,
    ensures
        occurrences(list, item) == 0,
    decreases list.len(),
{
    if list.len() > 0 {
        occurrences_of_none(list.skip(1), item);
    }
}

proof fn pluses_are_space_bytes(data: Seq<u8>)
    ensures
        occurrences(quoted(data), '+') == occurrences(data, 32u8),
    decreases data.len(),
{
    if data.len() > 0 {
        let head = quoted_byte(data[0]);
        pluses_are_space_bytes(data.skip(1));
        occurrences_of_sum(head, quoted(data.skip(1)), '+');
        if data[0] == 32 {
            assert(head.skip(1) =~= Seq::<char>::empty());
            assert(occurrences(head.skip(1), '+') == 0);
            assert(occurrences(head, '+') == 1);
        } else {
            occurrences_of_none(head, '+');
        }
    }
}

/// In UTF-8 the byte of a space stands for spaces only.
proof fn space_bytes_are_spaces(bytes: Seq<u8>)
    requires
        valid_utf8(bytes),
    ensures
        occurrences(bytes, 32u8) == occurrences(decode_utf8(bytes), ' '),
    decreases bytes.len(),
{
    if bytes.len() > 0 {
        let head = vstd::utf8::take_first_scalar(bytes);
        let rest = vstd::utf8::pop_first_scalar(bytes);
        let code = vstd::utf8::decode_first_scalar(bytes);
        let first = seq![code as char];
        space_bytes_are_spaces(rest);
        assert(bytes =~= head + rest);
        occurrences_of_sum(head, rest, 32u8);
        occurrences_of_sum(first, decode_utf8(rest), ' ');
        assert(first.skip(1) =~= Seq::<char>::empty());
        assert(occurrences(first.skip(1), ' ') == 0);
        if vstd::utf8::is_leading_byte_width_1(bytes[0]) {
            let b = bytes[0];
            assert(b <= 0x7f ==> (b & 0x7F) == b) by (bit_vector);
            assert(code == b as u32);
            assert(head =~= seq![b]);
            assert(head.skip(1) =~= Seq::<u8>::empty());
            assert(occurrences(head.skip(1), 32u8) == 0);
        } else {
            assert(code >= 0x80);
            vstd::utf8::decode_utf8_first_scalar(bytes);
            occurrences_of_none(head, 32u8);
        }
    }
}

/// A quoted path has one `+` for each space of the path.
pub proof fn pluses_are_spaces(path: Seq<char>)
    ensures
        occurrences(quoted(encode_utf8(path)), '+') == occurrences(path, ' '),
{
    let data = encode_utf8(path);
    pluses_are_space_bytes(data);
    vstd::utf8::encode_utf8_valid_utf8(path);
    encode_utf8_decode_utf8(path);
    space_bytes_are_spaces(data);
}

/// Bytes in lower case hexadecimal.
pub open spec fn hex(data: Seq<u8>) -> Seq<char>
    decreases data.len(),
{
    if data.len() == 0 {
        Seq::empty()
    } else {
        hex(data.drop_last()).push(hex_digit(data.last() as int / 16, 'a')).push(
            hex_digit(data.last() as int % 16, 'a'),
        )
    }
}

} // verus!
