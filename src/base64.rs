//! Base64 encodings: PlantUML's own alphabet, and the standard one for data URIs.
use base64::Engine;
use vstd::prelude::*;

verus! {

/// PlantUML's base64 alphabet.
pub open spec fn plantuml_alphabet() -> Seq<char> {
    seq![
        '0', '1', '2', '3', '4', '5', '6', '7', '8', '9',
        'A', 'B', 'C', 'D', 'E', 'F', 'G', 'H', 'I', 'J', 'K', 'L', 'M',
        'N', 'O', 'P', 'Q', 'R', 'S', 'T', 'U', 'V', 'W', 'X', 'Y', 'Z',
        'a', 'b', 'c', 'd', 'e', 'f', 'g', 'h', 'i', 'j', 'k', 'l', 'm',
        'n', 'o', 'p', 'q', 'r', 's', 't', 'u', 'v', 'w', 'x', 'y', 'z',
        '-', '_',
    ]
}

/// The standard base64 alphabet (RFC 4648).
pub open spec fn standard_alphabet() -> Seq<char> {
    seq![
        'A', 'B', 'C', 'D', 'E', 'F', 'G', 'H', 'I', 'J', 'K', 'L', 'M',
        'N', 'O', 'P', 'Q', 'R', 'S', 'T', 'U', 'V', 'W', 'X', 'Y', 'Z',
        'a', 'b', 'c', 'd', 'e', 'f', 'g', 'h', 'i', 'j', 'k', 'l', 'm',
        'n', 'o', 'p', 'q', 'r', 's', 't', 'u', 'v', 'w', 'x', 'y', 'z',
        '0', '1', '2', '3', '4', '5', '6', '7', '8', '9',
        '+', '/',
    ]
}

/// Three bytes as four digits of alphabet `a`, six bits each, the high bits first.
pub open spec fn quad(a: Seq<char>, b0: u8, b1: u8, b2: u8) -> Seq<char> {
    seq![
        a[b0 as int / 4],
        a[(b0 as int % 4) * 16 + b1 as int / 16],
        a[(b1 as int % 16) * 4 + b2 as int / 64],
        a[b2 as int % 64],
    ]
}

/// Base64 of `d` in alphabet `a`. A last group of one or two bytes is filled up with zero
/// bits; with `pad` the digits that stand only for the fill are replaced by `=`.
pub open spec fn base64_of(a: Seq<char>, d: Seq<u8>, pad: bool) -> Seq<char>
    decreases d.len(),
{
    if d.len() == 0 {
        Seq::empty()
    } else if d.len() == 1 {
        if pad {
            quad(a, d[0], 0, 0).take(2) + seq!['=', '=']
        } else {
            quad(a, d[0], 0, 0)
        }
    } else if d.len() == 2 {
        if pad {
            quad(a, d[0], d[1], 0).take(3) + seq!['=']
        } else {
            quad(a, d[0], d[1], 0)
        }
    } else {
        quad(a, d[0], d[1], d[2]) + base64_of(a, d.skip(3), pad)
    }
}

fn plantuml_table() -> (r: Vec<char>)
    ensures
        r@ == plantuml_alphabet(),
{
    let r = vec![
        '0', '1', '2', '3', '4', '5', '6', '7', '8', '9',
        'A', 'B', 'C', 'D', 'E', 'F', 'G', 'H', 'I', 'J', 'K', 'L', 'M',
        'N', 'O', 'P', 'Q', 'R', 'S', 'T', 'U', 'V', 'W', 'X', 'Y', 'Z',
        'a', 'b', 'c', 'd', 'e', 'f', 'g', 'h', 'i', 'j', 'k', 'l', 'm',
        'n', 'o', 'p', 'q', 'r', 's', 't', 'u', 'v', 'w', 'x', 'y', 'z',
        '-', '_',
    ];
    assert(r@ =~= plantuml_alphabet());
    r
}

/// Appends the four digits for three bytes.
fn push_quad(out: &mut Vec<char>, table: &Vec<char>, b0: u8, b1: u8, b2: u8)
    requires
        table@.len() == 64,
    ensures
        final(out)@ == old(out)@ + quad(table@, b0, b1, b2),
{
    out.push(table[(b0 / 4) as usize]);
    out.push(table[((b0 % 4) * 16 + b1 / 16) as usize]);
    out.push(table[((b1 % 16) * 4 + b2 / 64) as usize]);
    out.push(table[(b2 % 64) as usize]);
    assert(out@ =~= old(out)@ + quad(table@, b0, b1, b2));
}

/// Base64 of `data` in the alphabet `table`, as characters.
fn encode_with(table: &Vec<char>, data: &[u8], pad: bool) -> (r: Vec<char>)
    requires
        table@.len() == 64,
    ensures
        r@ == base64_of(table@, data@, pad),
{
    let mut out: Vec<char> = Vec::new();
    let mut i: usize = 0;
    let len = data.len();
    assert(data@.skip(0) =~= data@);
    while len - i >= 3
        invariant
            table@.len() == 64,
            len == data@.len(),
            i <= len,
            base64_of(table@, data@, pad) == out@ + base64_of(table@, data@.skip(i as int), pad),
        decreases len - i,
    {
        let ghost rest = data@.skip(i as int);
        assert(rest.skip(3) =~= data@.skip(i + 3));
        push_quad(&mut out, table, data[i], data[i + 1], data[i + 2]);
        i = i + 3;
    }
    let ghost rest = data@.skip(i as int);
    if len - i == 2 {
        let ghost before = out@;
        if pad {
            let mut q: Vec<char> = Vec::new();
            push_quad(&mut q, table, data[i], data[i + 1], 0);
            out.push(q[0]);
            out.push(q[1]);
            out.push(q[2]);
            out.push('=');
            assert(out@ =~= before + (quad(table@, rest[0], rest[1], 0).take(3) + seq!['=']));
        } else {
            push_quad(&mut out, table, data[i], data[i + 1], 0);
        }
    } else if len - i == 1 {
        let ghost before = out@;
        if pad {
            let mut q: Vec<char> = Vec::new();
            push_quad(&mut q, table, data[i], 0, 0);
            out.push(q[0]);
            out.push(q[1]);
            out.push('=');
            out.push('=');
            assert(out@ =~= before + (quad(table@, rest[0], 0, 0).take(2) + seq!['=', '=']));
        } else {
            push_quad(&mut out, table, data[i], 0, 0);
        }
    } else {
        assert(out@ + base64_of(table@, rest, pad) =~= out@);
    }
    out
}

fn collect_string(v: &Vec<char>) -> (r: String)
    ensures
        r@ == v@,
{
    let mut s = String::new();
    let mut i: usize = 0;
    while i < v.len()
        invariant
            i <= v.len(),
            s@ == v@.take(i as int),
        decreases v.len() - i,
    {
        push_char(&mut s, v[i]);
        assert(s@ =~= v@.take(i + 1));
        i = i + 1;
    }
    assert(v@.take(v.len() as int) =~= v@);
    s
}

/// Relies on `String::push`: appends one character.
#[verifier::external_body]
fn push_char(s: &mut String, c: char)
    ensures
        final(s)@ == old(s)@.push(c),
{
    s.push(c)
}

/// Relies on `base64::alphabet::Alphabet::new` and the `GeneralPurpose` engine with the
/// `PAD` configuration: base64 of `data` in `alphabet`, with `=` padding. `Alphabet::new`
/// accepts PlantUML's alphabet (64 distinct printable ASCII characters, none of them `=`).
#[verifier::external_body]
fn encode_in_alphabet(alphabet: &str, data: &[u8]) -> (r: String)
    requires
        alphabet@ == plantuml_alphabet(),
    ensures
        r@ == base64_of(alphabet@, data@, true),
{
    match base64::alphabet::Alphabet::new(alphabet) {
        Ok(a) => base64::engine::GeneralPurpose::new(&a, base64::engine::general_purpose::PAD)
            .encode(data),
        Err(_) => String::new(),
    }
}

/// PlantUML has its own base64 dialect (with `=` padding).
pub fn encode(data: &[u8]) -> (r: String)
    ensures
        r@ == base64_of(plantuml_alphabet(), data@, true),
{
    let alphabet = "0123456789ABCDEFGHIJKLMNOPQRSTUVWXYZabcdefghijklmnopqrstuvwxyz-_";
    proof {
        reveal_strlit("0123456789ABCDEFGHIJKLMNOPQRSTUVWXYZabcdefghijklmnopqrstuvwxyz-_");
        assert(alphabet@ =~= plantuml_alphabet());
    }
    encode_in_alphabet(alphabet, data)
}

/// PlantUML's base64 dialect written out by hand, where the last group is filled with
/// zero digits instead of padding.
pub struct Base64PlantUML {}

impl Base64PlantUML {
    pub fn encode(data: &[u8]) -> (r: String)
        ensures
            r@ == base64_of(plantuml_alphabet(), data@, false),
    {
        collect_string(&encode_with(&plantuml_table(), data, false))
    }
}

/// Relies on `base64::engine::general_purpose::STANDARD`: standard base64 (RFC 4648
/// alphabet, `=` padding). Encoding does not fail.
#[verifier::external_body]
pub(crate) fn encode_standard(data: &[u8]) -> (r: String)
    ensures
        r@ == base64_of(standard_alphabet(), data@, true),
{
    base64::engine::general_purpose::STANDARD.encode(data)
}

} // verus!
