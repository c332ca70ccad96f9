//! Plain-text bodies: the address, the user agent, the header lines, or the
//! landing page.
use vstd::prelude::*;
use vstd::string::*;

use crate::headers::HeaderSet;

verus! {

/// The route list that the landing page shows, one path per line.
pub open spec fn route_list() -> Seq<char> {
    "/ip\n/ua\n/all\n/raw/ip\n/raw/headers\n/raw/useragent\n/raw/all\n/json/ip\n/json/headers\n/json/useragent\n/json/all"@
}

/// One header as a line: `Name: Value` and a newline.
pub open spec fn header_line(h: (Seq<char>, Seq<char>)) -> Seq<char> {
    h.0 + ": "@ + h.1 + "\n"@
}

/// One line per header, in transmission order.
pub open spec fn header_lines(hs: Seq<(Seq<char>, Seq<char>)>) -> Seq<char>
    decreases hs.len(),
{
    if hs.len() == 0 {
        Seq::empty()
    } else {
        header_lines(hs.drop_last()) + header_line(hs.last())
    }
}

/// A value on a line of its own.
pub open spec fn line_of(s: Seq<char>) -> Seq<char> {
    s + "\n"@
}

/// The address line followed by the header lines.
pub open spec fn combined_text(addr: Seq<char>, hs: Seq<(Seq<char>, Seq<char>)>) -> Seq<char> {
    "ip: "@ + addr + "\n"@ + header_lines(hs)
}

/// The landing page for callers that are not tools: the address and the
/// list of routes.
pub open spec fn landing_text(addr: Seq<char>) -> Seq<char> {
    "your ip is: "@ + addr + "\nother routes:\n"@ + route_list()
}

/// A value followed by a newline.
pub fn as_line(s: &str) -> (r: String)
    ensures
        r@ == line_of(s@),
{
    String::from_str(s).concat("\n")
}

/// Appends one line per header to `out`.
fn push_header_lines(out: &mut String, headers: &HeaderSet)
    ensures
        final(out)@ == old(out)@ + header_lines(headers@),
{
    let n = headers.entries.len();
    let mut i: usize = 0;
    assert(headers@.take(0) =~= Seq::<(Seq<char>, Seq<char>)>::empty());
    while i < n
        invariant
            n == headers.entries@.len(),
            n == headers@.len(),
            i <= n,
            out@ == old(out)@ + header_lines(headers@.take(i as int)),
        decreases n - i,
    {
        let h = &headers.entries[i];
        out.append(h.name.as_str());
        out.append(": ");
        out.append(h.value.as_str());
        out.append("\n");
        proof {
            let t = headers@.take(i + 1);
            assert(t.drop_last() =~= headers@.take(i as int));
            assert(t.last() == h@);
            assert(out@ =~= old(out)@ + header_lines(t));
        }
        i = i + 1;
    }
    assert(headers@.take(n as int) =~= headers@);
}

/// Every header as `Name: Value` on a line, in transmission order.
pub fn header_dump(headers: &HeaderSet) -> (r: String)
    ensures
        r@ == header_lines(headers@),
{
    let mut out = String::new();
    push_header_lines(&mut out, headers);
    assert(out@ =~= header_lines(headers@));
    out
}

/// `ip: <address>` on the first line, then every header line.
pub fn combined_dump(addr: &str, headers: &HeaderSet) -> (r: String)
    ensures
        r@ == combined_text(addr@, headers@),
{
    let mut out = String::from_str("ip: ");
    out.append(addr);
    out.append("\n");
    push_header_lines(&mut out, headers);
    out
}

/// The landing page for a caller that is not a tool.
pub fn landing(addr: &str) -> (r: String)
    ensures
        r@ == landing_text(addr@),
{
    let mut out = String::from_str("your ip is: ");
    out.append(addr);
    out.append("\nother routes:\n");
    out.append(
        "/ip\n/ua\n/all\n/raw/ip\n/raw/headers\n/raw/useragent\n/raw/all\n/json/ip\n/json/headers\n/json/useragent\n/json/all",
    );
    out
}

} // verus!
