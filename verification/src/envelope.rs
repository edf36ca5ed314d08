//! The envelopes in which the plugin answers its host, and the buffer that carries them.
use vstd::prelude::*;
use vstd::slice::slice_to_vec;
use vstd::string::*;
use vstd::utf8::*;

use crate::text::{control, is_control};

verus! {

/// What stands for a character inside the quotes of a JSON string: the quote, the backslash
/// and the three usual breaks are escaped, any other control character becomes a blank.
pub open spec fn escape_char(c: char) -> Seq<char> {
    if c == '"' {
        seq!['\\', '"']
    } else if c == '\\' {
        seq!['\\', '\\']
    } else if c == '\n' {
        seq!['\\', 'n']
    } else if c == '\r' {
        seq!['\\', 'r']
    } else if c == '\t' {
        seq!['\\', 't']
    } else if is_control(c) {
        seq![' ']
    } else {
        seq![c]
    }
}

/// What stands for a text inside the quotes of a JSON string.
pub open spec fn escaped(s: Seq<char>) -> Seq<char>
    decreases s.len(),
{
    if s.len() == 0 {
        Seq::empty()
    } else {
        escape_char(s[0]) + escaped(s.drop_first())
    }
}

/// A text without quotes, backslashes and control characters stands for itself.
pub proof fn lemma_escaped_plain(s: Seq<char>)
    requires
        forall|i: int|
            0 <= i < s.len() ==> #[trigger] s[i] != '"' && s[i] != '\\' && !is_control(s[i]),
    ensures
        escaped(s) == s,
    decreases s.len(),
{
    if s.len() > 0 {
        let rest = s.drop_first();
        assert forall|i: int| 0 <= i < rest.len() implies #[trigger] rest[i] != '"' && rest[i]
            != '\\' && !is_control(rest[i]) by {
            assert(rest[i] == s[i + 1]);
        }
        lemma_escaped_plain(rest);
        assert(s[0] != '"');
        assert(escape_char(s[0]) =~= seq![s[0]]);
        assert(escaped(s) =~= s);
    }
}

/// Escapes a text for the inside of a JSON string.
pub fn escape_json_string(s: &str) -> (r: String)
    ensures
        r@ == escaped(s@),
{
    let mut out = String::new();
    assert(s@.skip(0) =~= s@);
    for c in it: s.chars()
        invariant
            it.seq() == s@,
            out@ + escaped(s@.skip(it.index() as int)) == escaped(s@),
    {
        let ghost rest = s@.skip(it.index() as int);
        let ghost before = out@;
        if c == '"' {
            out.push('\\');
            out.push('"');
        } else if c == '\\' {
            out.push('\\');
            out.push('\\');
        } else if c == '\n' {
            out.push('\\');
            out.push('n');
        } else if c == '\r' {
            out.push('\\');
            out.push('r');
        } else if c == '\t' {
            out.push('\\');
            out.push('t');
        } else if control(c) {
            out.push(' ');
        } else {
            out.push(c);
        }
        assert(rest[0] == c);
        assert(rest.drop_first() =~= s@.skip(it.index() + 1));
        assert(out@ =~= before + escape_char(c));
        assert(out@ + escaped(rest.drop_first()) =~= before + escaped(rest));
    }
    assert(s@.skip(s@.len() as int) =~= Seq::empty());
    assert(out@ + Seq::empty() =~= out@);
    out
}

/// The envelope of a result, itself JSON text.
pub open spec fn ok_envelope(result: Seq<char>) -> Seq<char> {
    "{\"ok\":true,\"result\":"@ + result + "}"@
}

/// Puts a result, itself JSON text, in its envelope.
pub fn ok_envelope_bytes(result_json: &str) -> (r: Vec<u8>)
    ensures
        r@ == encode_utf8(ok_envelope(result_json@)),
{
    let mut out = String::new();
    out.append("{\"ok\":true,\"result\":");
    out.append(result_json);
    out.append("}");
    assert(out@ =~= ok_envelope(result_json@));
    out.as_str().as_bytes_vec()
}

/// The envelope of an error.
pub open spec fn error_envelope_of(code: Seq<char>, msg: Seq<char>) -> Seq<char> {
    "{\"ok\":false,\"error\":{\"code\":\""@ + escaped(code) + "\",\"message\":\""@ + escaped(msg)
        + "\"}}"@
}

/// Puts an error in its envelope.
pub fn error_envelope(code: &str, msg: &str) -> (r: String)
    ensures
        r@ == error_envelope_of(code@, msg@),
{
    let mut out = String::new();
    out.append("{\"ok\":false,\"error\":{\"code\":\"");
    out.append(escape_json_string(code).as_str());
    out.append("\",\"message\":\"");
    out.append(escape_json_string(msg).as_str());
    out.append("\"}}");
    assert(out@ =~= error_envelope_of(code@, msg@));
    out
}

/// The bytes that cross the plugin's border in an answer. A buffer without bytes is the null
/// buffer: nothing is handed over.
pub struct CliproxyBuffer {
    pub bytes: Vec<u8>,
}

impl View for CliproxyBuffer {
    type V = Seq<u8>;

    open spec fn view(&self) -> Seq<u8> {
        self.bytes@
    }
}

impl CliproxyBuffer {
    /// The null buffer.
    pub fn null() -> (r: Self)
        ensures
            r@.len() == 0,
    {
        CliproxyBuffer { bytes: Vec::new() }
    }
}

/// Puts an answer in the buffer; an empty answer leaves the buffer as it is.
pub fn write_response(response: &mut CliproxyBuffer, body: &[u8])
    ensures
        final(response)@ == if body@.len() == 0 {
            old(response)@
        } else {
            body@
        },
{
    if body.len() == 0 {
        return;
    }
    response.bytes = slice_to_vec(body);
}

} // verus!
