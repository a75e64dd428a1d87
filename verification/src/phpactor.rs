//! The protocol spoken to the external PHP completion oracle: the wire
//! records of its RPC envelope, the exact bytes of a completion request, and
//! the degradation of a failed call to an empty suggestion list.

use vstd::prelude::*;
use vstd::string::StringSliceAdditionalSpecFns;

verus! {

/// The oracle's whole response envelope.
pub struct CompletionResponse {
    pub version: String,
    pub action: String,
    pub parameters: CompletionParameter,
}

pub struct CompletionParameter {
    pub value: CompletionValue,
}

pub struct CompletionValue {
    pub suggestions: Vec<CompletionItem>,
    /// Diagnostics the oracle reports alongside its suggestions, kept as the
    /// raw text of each entry; nothing downstream reads into them.
    pub issues: Vec<String>,
}

/// One suggestion from the oracle. Only `label` and `documentation` are
/// surfaced to the editor; the rest is carried through unread.
pub struct CompletionItem {
    pub completion_type: String,
    pub name: String,
    pub snippet: String,
    pub label: String,
    pub short_description: String,
    pub documentation: String,
    pub class_import: Option<String>,
    pub name_import: Option<String>,
    pub fqn: Option<String>,
    pub range: Option<String>,
    pub info: String,
}

/// How a call to the external oracle failed. Each of these degrades to an
/// empty suggestion list; none may abort the server.
pub enum OracleError {
    SpawnFailed,
    IoFailed,
    MalformedOutput,
}

/// The value of one lowercase hexadecimal digit.
pub open spec fn hex_digit(n: u8) -> u8 {
    if n < 10 {
        (0x30 + n) as u8
    } else {
        (0x61 + (n - 10)) as u8
    }
}

/// The JSON string escape of one byte of UTF-8 text. Bytes of multi-byte
/// characters are all at least 0x80 and pass through unchanged, so escaping
/// byte by byte equals escaping character by character.
pub open spec fn escape_byte(b: u8) -> Seq<u8> {
    if b == 0x22 {
        seq![0x5cu8, 0x22u8]
    } else if b == 0x5c {
        seq![0x5cu8, 0x5cu8]
    } else if b == 0x08 {
        seq![0x5cu8, 0x62u8]
    } else if b == 0x09 {
        seq![0x5cu8, 0x74u8]
    } else if b == 0x0a {
        seq![0x5cu8, 0x6eu8]
    } else if b == 0x0c {
        seq![0x5cu8, 0x66u8]
    } else if b == 0x0d {
        seq![0x5cu8, 0x72u8]
    } else if b < 0x20 {
        seq![0x5cu8, 0x75u8, 0x30u8, 0x30u8, hex_digit(b / 16), hex_digit(b % 16)]
    } else {
        seq![b]
    }
}

/// The JSON string escape of a byte sequence.
pub open spec fn escape_bytes(s: Seq<u8>) -> Seq<u8>
    decreases s.len(),
{
    if s.len() == 0 {
        Seq::empty()
    } else {
        escape_bytes(s.drop_last()) + escape_byte(s.last())
    }
}

/// The decimal digits of `n`, most significant first.
pub open spec fn dec_digits(n: nat) -> Seq<u8>
    decreases n,
{
    if n < 10 {
        seq![(0x30 + n) as u8]
    } else {
        dec_digits(n / 10) + seq![(0x30 + n % 10) as u8]
    }
}

/// The exact bytes of one completion request: a single JSON value asking the
/// oracle to complete `snippet` at the offset just past its end. Object keys
/// appear in sorted order, and the offset is always the snippet's byte
/// length — a known quirk, deliberately kept: it conflates "complete at end
/// of snippet" with "complete at cursor".
pub open spec fn oracle_request_bytes(snippet: Seq<u8>) -> Seq<u8> {
    "{\"action\":\"complete\",\"parameters\":{\"offset\":".spec_bytes() + dec_digits(snippet.len())
        + ",\"source\":\"".spec_bytes() + escape_bytes(snippet) + "\"}}".spec_bytes()
}

fn hex_digit_exec(n: u8) -> (r: u8)
    requires
        n < 16,
    ensures
        r == hex_digit(n),
{
    if n < 10 {
        0x30 + n
    } else {
        0x61 + (n - 10)
    }
}

fn push_decimal(out: &mut Vec<u8>, n: usize)
    ensures
        final(out)@ == old(out)@ + dec_digits(n as nat),
    decreases n,
{
    if n < 10 {
        out.push(0x30 + (n as u8));
        proof {
            assert(out@ =~= old(out)@ + dec_digits(n as nat));
        }
    } else {
        push_decimal(out, n / 10);
        out.push(0x30 + ((n % 10) as u8));
        proof {
            assert(out@ =~= old(out)@ + dec_digits(n as nat));
        }
    }
}

fn push_escaped(out: &mut Vec<u8>, s: &Vec<u8>)
    ensures
        final(out)@ == old(out)@ + escape_bytes(s@),
{
    let ghost out0 = out@;
    let n = s.len();
    let mut i: usize = 0;
    proof {
        assert(s@.subrange(0, 0) =~= Seq::<u8>::empty());
    }
    while i < n
        invariant
            n == s@.len(),
            i <= n,
            out@ == out0 + escape_bytes(s@.subrange(0, i as int)),
        decreases n - i,
    {
        let b = s[i];
        proof {
            assert(s@.subrange(0, i as int + 1).drop_last() =~= s@.subrange(0, i as int));
            assert(s@.subrange(0, i as int + 1).last() == s@[i as int]);
        }
        if b == 0x22 {
            out.push(0x5c);
            out.push(0x22);
        } else if b == 0x5c {
            out.push(0x5c);
            out.push(0x5c);
        } else if b == 0x08 {
            out.push(0x5c);
            out.push(0x62);
        } else if b == 0x09 {
            out.push(0x5c);
            out.push(0x74);
        } else if b == 0x0a {
            out.push(0x5c);
            out.push(0x6e);
        } else if b == 0x0c {
            out.push(0x5c);
            out.push(0x66);
        } else if b == 0x0d {
            out.push(0x5c);
            out.push(0x72);
        } else if b < 0x20 {
            out.push(0x5c);
            out.push(0x75);
            out.push(0x30);
            out.push(0x30);
            out.push(hex_digit_exec(b / 16));
            out.push(hex_digit_exec(b % 16));
        } else {
            out.push(b);
        }
        proof {
            assert(out@ =~= out0 + escape_bytes(s@.subrange(0, i as int + 1)));
        }
        i = i + 1;
    }
    proof {
        assert(s@.subrange(0, n as int) =~= s@);
    }
}

/// Encodes the single request written to the oracle's input stream.
pub fn encode_oracle_request(snippet: &Vec<u8>) -> (r: Vec<u8>)
    ensures
        r@ == oracle_request_bytes(snippet@),
{
    let mut out: Vec<u8> = Vec::new();
    out.extend_from_slice("{\"action\":\"complete\",\"parameters\":{\"offset\":".as_bytes());
    push_decimal(&mut out, snippet.len());
    out.extend_from_slice(",\"source\":\"".as_bytes());
    push_escaped(&mut out, snippet);
    out.extend_from_slice("\"}}".as_bytes());
    proof {
        assert(out@ =~= oracle_request_bytes(snippet@));
    }
    out
}

/// The suggestions surfaced for one oracle outcome: a successful response
/// yields exactly its suggestion list — an empty list stays an empty list —
/// and every failure degrades to no suggestions at all, never to a fault.
pub fn completion_list_from_outcome(outcome: Result<CompletionResponse, OracleError>) -> (r: Vec<
    CompletionItem,
>)
    ensures
        match outcome {
            Ok(resp) => r == resp.parameters.value.suggestions,
            Err(_) => r@.len() == 0,
        },
{
    match outcome {
        Ok(resp) => resp.parameters.value.suggestions,
        Err(_) => Vec::new(),
    }
}

} // verus!
