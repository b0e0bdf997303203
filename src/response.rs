//! Response synthesis: byte-exact framing of a response from the request it answers.
use vstd::prelude::*;
use crate::text::{ascii, crlf, decimal, ascii_bytes, append_bytes, append_decimal};
use crate::headers::value_or_empty;
use crate::parser::{ParsedRequest, RequestView, seqs};

verus! {

broadcast use vstd::string::group_string_axioms;

/// Where the far end sends its next in-dialog requests: `<sip:user@host>`.
pub struct LocalContact {
    pub user: Vec<u8>,
    pub host: Vec<u8>,
}

/// One header line: name and separator, value, line end.
pub open spec fn header_line(prefix: Seq<char>, value: Seq<u8>) -> Seq<u8> {
    ascii(prefix) + value + crlf()
}

/// One header line per value, in order.
pub open spec fn repeated_lines(prefix: Seq<char>, values: Seq<Seq<u8>>) -> Seq<u8>
    decreases values.len(),
{
    if values.len() == 0 {
        Seq::empty()
    } else {
        repeated_lines(prefix, values.drop_last()) + header_line(prefix, values.last())
    }
}

/// The contact header line.
pub open spec fn contact_line(user: Seq<u8>, host: Seq<u8>) -> Seq<u8> {
    ascii("Contact: <sip:"@) + user + ascii("@"@) + host + ascii(">"@) + crlf()
}

/// Everything of a response before its body.
pub open spec fn response_head(
    status: Seq<u8>,
    req: RequestView,
    user: Seq<u8>,
    host: Seq<u8>,
    body_len: nat,
) -> Seq<u8> {
    ascii("SIP/2.0 "@) + status + crlf() + repeated_lines("Via: "@, req.via) + repeated_lines(
        "Record-Route: "@,
        req.record_route,
    ) + header_line("From: "@, value_or_empty(req.headers, ascii("From"@))) + header_line(
        "To: "@,
        value_or_empty(req.headers, ascii("To"@)),
    ) + header_line("Call-ID: "@, value_or_empty(req.headers, ascii("Call-ID"@))) + header_line(
        "CSeq: "@,
        value_or_empty(req.headers, ascii("CSeq"@)),
    ) + contact_line(user, host) + header_line("Content-Type: "@, ascii("application/sdp"@))
        + header_line("Content-Length: "@, decimal(body_len))
}

/// A complete response: its head, the blank line, and the body.
pub open spec fn response_text(
    status: Seq<u8>,
    req: RequestView,
    user: Seq<u8>,
    host: Seq<u8>,
    body: Seq<u8>,
) -> Seq<u8> {
    response_head(status, req, user, host, body.len()) + crlf() + body
}

fn append_crlf(out: &mut Vec<u8>)
    ensures
        final(out)@ == old(out)@ + crlf(),
{
    out.push(13);
    out.push(10);
    assert(out@ =~= old(out)@ + crlf());
}

fn append_header(out: &mut Vec<u8>, prefix: &'static str, value: &[u8])
    requires
        vstd::string::is_ascii(prefix),
    ensures
        final(out)@ == old(out)@ + header_line(prefix@, value@),
{
    append_bytes(out, ascii_bytes(prefix));
    append_bytes(out, value);
    append_crlf(out);
    assert(out@ =~= old(out)@ + header_line(prefix@, value@));
}

fn append_repeated(out: &mut Vec<u8>, prefix: &'static str, values: &Vec<Vec<u8>>)
    requires
        vstd::string::is_ascii(prefix),
    ensures
        final(out)@ == old(out)@ + repeated_lines(prefix@, seqs(values@)),
{
    let mut i: usize = 0;
    while i < values.len()
        invariant
            vstd::string::is_ascii(prefix),
            i <= values@.len(),
            out@ == old(out)@ + repeated_lines(prefix@, seqs(values@).subrange(0, i as int)),
        decreases values@.len() - i,
    {
        let ghost before = out@;
        append_header(out, prefix, values[i].as_slice());
        proof {
            let vs = seqs(values@).subrange(0, i + 1);
            assert(vs.drop_last() =~= seqs(values@).subrange(0, i as int));
            assert(vs.last() == values@[i as int]@);
            assert(out@ =~= old(out)@ + repeated_lines(prefix@, vs));
        }
        i = i + 1;
    }
    assert(seqs(values@).subrange(0, values@.len() as int) =~= seqs(values@));
}

/// Builds the response with `status_line` to `request`, carrying `body` when there is one.
/// The body-length header holds the exact length of the body, zero without one.
pub fn create_response(
    status_line: &[u8],
    request: &ParsedRequest,
    contact: &LocalContact,
    body: Option<&[u8]>,
) -> (r: Vec<u8>)
    ensures
        r@ == response_text(
            status_line@,
            request@,
            contact.user@,
            contact.host@,
            match body {
                Some(b) => b@,
                None => Seq::empty(),
            },
        ),
{
    let empty: Vec<u8> = Vec::new();
    let b: &[u8] = match body {
        Some(b) => b,
        None => empty.as_slice(),
    };
    let mut out: Vec<u8> = Vec::new();
    proof {
        reveal_strlit("SIP/2.0 ");
        reveal_strlit("Via: ");
        reveal_strlit("Record-Route: ");
        reveal_strlit("From: ");
        reveal_strlit("To: ");
        reveal_strlit("Call-ID: ");
        reveal_strlit("CSeq: ");
        reveal_strlit("From");
        reveal_strlit("To");
        reveal_strlit("Call-ID");
        reveal_strlit("CSeq");
        reveal_strlit("Contact: <sip:");
        reveal_strlit("@");
        reveal_strlit(">");
        reveal_strlit("Content-Type: ");
        reveal_strlit("application/sdp");
        reveal_strlit("Content-Length: ");
    }
    append_bytes(&mut out, ascii_bytes("SIP/2.0 "));
    append_bytes(&mut out, status_line);
    append_crlf(&mut out);
    append_repeated(&mut out, "Via: ", &request.via);
    append_repeated(&mut out, "Record-Route: ", &request.record_route);
    let from = request.headers.get_or_empty(ascii_bytes("From"));
    append_header(&mut out, "From: ", from.as_slice());
    let to = request.headers.get_or_empty(ascii_bytes("To"));
    append_header(&mut out, "To: ", to.as_slice());
    let call_id = request.headers.get_or_empty(ascii_bytes("Call-ID"));
    append_header(&mut out, "Call-ID: ", call_id.as_slice());
    let cseq = request.headers.get_or_empty(ascii_bytes("CSeq"));
    append_header(&mut out, "CSeq: ", cseq.as_slice());
    append_bytes(&mut out, ascii_bytes("Contact: <sip:"));
    append_bytes(&mut out, contact.user.as_slice());
    append_bytes(&mut out, ascii_bytes("@"));
    append_bytes(&mut out, contact.host.as_slice());
    append_bytes(&mut out, ascii_bytes(">"));
    append_crlf(&mut out);
    append_header(&mut out, "Content-Type: ", ascii_bytes("application/sdp"));
    append_bytes(&mut out, ascii_bytes("Content-Length: "));
    append_decimal(&mut out, b.len() as u64);
    append_crlf(&mut out);
    append_crlf(&mut out);
    append_bytes(&mut out, b);
    assert(out@ =~= response_text(status_line@, request@, contact.user@, contact.host@, b@));
    out
}

} // verus!
