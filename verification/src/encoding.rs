//! URL-safe base64.

use base64::Engine;
use vstd::prelude::*;

verus! {

/// The character for a number below 64 in the URL-safe base64 alphabet.
pub open spec fn sextet(n: int) -> char {
    if n < 26 {
        (65 + n) as char
    } else if n < 52 {
        (71 + n) as char
    } else if n < 62 {
        (n - 4) as char
    } else if n == 62 {
        '-'
    } else {
        '_'
    }
}

/// URL-safe base64 with padding: three bytes become four characters of six bits each.
pub open spec fn base64_url(b: Seq<u8>) -> Seq<char>
    decreases b.len(),
{
    if b.len() == 0 {
        Seq::empty()
    } else if b.len() == 1 {
        seq![sextet((b[0] as int) / 4), sextet((b[0] as int) % 4 * 16), '=', '=']
    } else if b.len() == 2 {
        seq![
            sextet((b[0] as int) / 4),
            sextet((b[0] as int) % 4 * 16 + (b[1] as int) / 16),
            sextet((b[1] as int) % 16 * 4),
            '=',
        ]
    } else {
        seq![
            sextet((b[0] as int) / 4),
            sextet((b[0] as int) % 4 * 16 + (b[1] as int) / 16),
            sextet((b[1] as int) % 16 * 4 + (b[2] as int) / 64),
            sextet((b[2] as int) % 64),
        ] + base64_url(b.skip(3))
    }
}

/// How many characters encode `n` bytes.
pub open spec fn base64_len(n: int) -> int {
    (n + 2) / 3 * 4
}

/// Encodes with `base64`'s `URL_SAFE` engine, whose alphabet is the URL-safe one and which pads.
/// Trusted: the text is that encoding of the bytes. The bound keeps the text within what one
/// allocation can hold; the engine panics beyond it.
#[verifier::external_body]
pub(crate) fn encode_url_safe(bytes: &[u8]) -> (r: String)
    requires
        base64_len(bytes@.len() as int) <= isize::MAX,
    ensures
        r@ == base64_url(bytes@),
{
    base64::engine::general_purpose::URL_SAFE.encode(bytes)
}

/// The number that a character of the URL-safe alphabet stands for.
pub open spec fn sextet_value(c: char) -> int {
    let n = c as int;
    if 65 <= n <= 90 {
        n - 65
    } else if 97 <= n <= 122 {
        n - 71
    } else if 48 <= n <= 57 {
        n + 4
    } else if c == '-' {
        62
    } else {
        63
    }
}

/// The bytes that a padded URL-safe base64 text encodes.
pub open spec fn base64_url_decoded(s: Seq<char>) -> Seq<u8>
    decreases s.len(),
{
    if s.len() < 4 {
        Seq::empty()
    } else {
        let a = sextet_value(s[0]);
        let b = sextet_value(s[1]);
        let c = sextet_value(s[2]);
        let d = sextet_value(s[3]);
        let first = (a * 4 + b / 16) as u8;
        if s[2] == '=' {
            seq![first]
        } else if s[3] == '=' {
            seq![first, (b % 16 * 16 + c / 4) as u8]
        } else {
            seq![first, (b % 16 * 16 + c / 4) as u8, (c % 4 * 64 + d) as u8] + base64_url_decoded(
                s.skip(4),
            )
        }
    }
}

proof fn lemma_sextet(n: int)
    requires
        0 <= n < 64,
    ensures
        sextet_value(sextet(n)) == n,
        sextet(n) != '=',
{
}

/// Decoding gives back the bytes that were encoded.
pub proof fn law_base64_decodes(b: Seq<u8>)
    ensures
        base64_url_decoded(base64_url(b)) == b,
    decreases b.len(),
{
    let s = base64_url(b);
    if b.len() == 1 {
        lemma_sextet((b[0] as int) / 4);
        lemma_sextet((b[0] as int) % 4 * 16);
        assert(base64_url_decoded(s) =~= b);
    } else if b.len() == 2 {
        lemma_sextet((b[0] as int) / 4);
        lemma_sextet((b[0] as int) % 4 * 16 + (b[1] as int) / 16);
        lemma_sextet((b[1] as int) % 16 * 4);
        assert(base64_url_decoded(s) =~= b);
    } else if b.len() > 2 {
        lemma_sextet((b[0] as int) / 4);
        lemma_sextet((b[0] as int) % 4 * 16 + (b[1] as int) / 16);
        lemma_sextet((b[1] as int) % 16 * 4 + (b[2] as int) / 64);
        lemma_sextet((b[2] as int) % 64);
        law_base64_decodes(b.skip(3));
        assert(s.skip(4) =~= base64_url(b.skip(3)));
        assert(base64_url_decoded(s) =~= b);
    } else {
        assert(b =~= Seq::empty());
    }
}

/// The text has four characters for every three bytes or part of three, and they are letters,
/// digits, `-` and `_`, but for `=` at the end.
pub proof fn law_base64_alphabet(b: Seq<u8>)
    ensures
        base64_url(b).len() == base64_len(b.len() as int),
        forall|i: int|
            0 <= i < base64_url(b).len() ==> {
                let c = #[trigger] base64_url(b)[i];
                ||| 'A' <= c <= 'Z'
                ||| 'a' <= c <= 'z'
                ||| '0' <= c <= '9'
                ||| c == '-'
                ||| c == '_'
                ||| c == '=' && i >= base64_url(b).len() - 2
            },
    decreases b.len(),
{
    if b.len() > 2 {
        let rest = base64_url(b.skip(3));
        law_base64_alphabet(b.skip(3));
        assert(base64_url(b).skip(4) =~= rest);
        assert forall|i: int| 0 <= i < base64_url(b).len() implies {
            let c = #[trigger] base64_url(b)[i];
            ||| 'A' <= c <= 'Z'
            ||| 'a' <= c <= 'z'
            ||| '0' <= c <= '9'
            ||| c == '-'
            ||| c == '_'
            ||| c == '=' && i >= base64_url(b).len() - 2
        } by {
            if i >= 4 {
                assert(base64_url(b)[i] == rest[i - 4]);
            }
        }
    }
}

} // verus!
