//! The value model of the flat wire map.

use vstd::prelude::*;

verus! {

/// One value of the flat wire map: a string, a boolean, an integer, or a
/// nested object of string-valued fields (used for the address structure and
/// available to extension payloads).
#[derive(Debug, PartialEq)]
pub enum ClaimValue {
    Text(String),
    Flag(bool),
    Integer(i64),
    Object(Vec<(String, String)>),
}

/// The mathematical shape of a [`ClaimValue`]: strings become character
/// sequences, machine integers become unbounded integers.
#[verifier::ext_equal]
pub enum ValueView {
    Text(Seq<char>),
    Flag(bool),
    Integer(int),
    Object(Seq<(Seq<char>, Seq<char>)>),
}

impl View for ClaimValue {
    type V = ValueView;

    open spec fn view(&self) -> ValueView {
        match self {
            ClaimValue::Text(s) => ValueView::Text(s@),
            ClaimValue::Flag(b) => ValueView::Flag(*b),
            ClaimValue::Integer(n) => ValueView::Integer(*n as int),
            ClaimValue::Object(ps) => ValueView::Object(
                ps@.map_values(|p: (String, String)| (p.0@, p.1@)),
            ),
        }
    }
}

impl DeepView for ClaimValue {
    type V = ValueView;

    open spec fn deep_view(&self) -> ValueView {
        self.view()
    }
}

impl Clone for ClaimValue {
    /// A clone denotes the same value.
    fn clone(&self) -> (r: Self)
        ensures
            r@ == self@,
    {
        match self {
            ClaimValue::Text(s) => ClaimValue::Text(s.clone()),
            ClaimValue::Flag(b) => ClaimValue::Flag(*b),
            ClaimValue::Integer(n) => ClaimValue::Integer(*n),
            ClaimValue::Object(ps) => {
                let mut out: Vec<(String, String)> = Vec::new();
                let mut i: usize = 0;
                while i < ps.len()
                    invariant
                        i <= ps.len(),
                        out@ =~= ps@.subrange(0, i as int),
                    decreases ps.len() - i,
                {
                    out.push((ps[i].0.clone(), ps[i].1.clone()));
                    assert(out@ =~= ps@.subrange(0, i + 1 as int));
                    i = i + 1;
                }
                assert(out@ =~= ps@);
                ClaimValue::Object(out)
            },
        }
    }
}

/// Clone a vector of flat-map pairs; the clone denotes the same pairs.
pub fn clone_pairs(src: &Vec<(String, ClaimValue)>) -> (r: Vec<(String, ClaimValue)>)
    ensures
        r.deep_view() == src.deep_view(),
{
    let mut out: Vec<(String, ClaimValue)> = Vec::new();
    let n = src.len();
    let mut i: usize = 0;
    while i < n
        invariant
            i <= n,
            n == src@.len(),
            out.deep_view() =~~= src.deep_view().take(i as int),
        decreases n - i,
    {
        out.push((src[i].0.clone(), src[i].1.clone()));
        proof {
            assert(out.deep_view() =~~= src.deep_view().take(i as int + 1));
        }
        i = i + 1;
    }
    proof {
        assert(src.deep_view().take(n as int) =~~= src.deep_view());
    }
    out
}

} // verus!
