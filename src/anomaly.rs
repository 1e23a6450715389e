//! The text that a request's headers are turned into before they are handed
//! to the external anomaly scorer.
use vstd::prelude::*;
use crate::engine::headers_view;
use crate::text::{chars_of, string_of};

verus! {

/// One header as `Name: Value`.
pub open spec fn header_entry(p: (Seq<char>, Seq<char>)) -> Seq<char> {
    p.0 + ": "@ + p.1
}

/// The entries of the headers `h`, in order, joined with ` | `.
pub open spec fn joined_headers(h: Seq<(Seq<char>, Seq<char>)>) -> Seq<char>
    decreases h.len(),
{
    if h.len() == 0 {
        Seq::empty()
    } else if h.len() == 1 {
        header_entry(h[0])
    } else {
        joined_headers(h.drop_last()) + " | "@ + header_entry(h.last())
    }
}

/// The headers as `Name: Value` entries joined with ` | `.
pub fn format_headers_for_embedding(headers: &[(String, String)]) -> (r: String)
    ensures
        r@ == joined_headers(headers_view(headers@)),
{
    let ghost h = headers_view(headers@);
    let mut out: Vec<char> = Vec::new();
    let mut i: usize = 0;
    while i < headers.len()
        invariant
            i <= headers.len(),
            h == headers_view(headers@),
            out@ == joined_headers(h.take(i as int)),
        decreases headers.len() - i,
    {
        let ghost before = out@;
        if i > 0 {
            let mut sep = chars_of(" | ");
            out.append(&mut sep);
        }
        let mut name = chars_of(headers[i].0.as_str());
        out.append(&mut name);
        let mut colon = chars_of(": ");
        out.append(&mut colon);
        let mut value = chars_of(headers[i].1.as_str());
        out.append(&mut value);
        assert(h.take(i + 1).drop_last() =~= h.take(i as int));
        assert(h.take(i + 1).last() == h[i as int]);
        if i > 0 {
            assert(out@ =~= before + " | "@ + header_entry(h[i as int]));
        } else {
            assert(out@ =~= header_entry(h[i as int]));
        }
        i = i + 1;
    }
    assert(h.take(headers.len() as int) =~= h);
    string_of(&out)
}

} // verus!
