//! The address structure and its codec.

use vstd::prelude::*;
use vstd::string::StringExecFns;
use crate::error::ClaimError;
use crate::error::ErrorView;
use crate::helpers::str_eq;

verus! {

/// A physical mailing address: six independent optional fields. The whole
/// structure is present or absent as a unit in a claim set; its sub-fields
/// are carried as one nested object on the wire, never flattened into the
/// outer map.
#[derive(Clone, Debug, PartialEq)]
pub struct AddressClaim {
    pub formatted: Option<String>,
    pub street_address: Option<String>,
    pub locality: Option<String>,
    pub region: Option<String>,
    pub postal_code: Option<String>,
    pub country: Option<String>,
}

/// The mathematical shape of an [`AddressClaim`].
#[verifier::ext_equal]
pub struct AddressView {
    pub formatted: Option<Seq<char>>,
    pub street_address: Option<Seq<char>>,
    pub locality: Option<Seq<char>>,
    pub region: Option<Seq<char>>,
    pub postal_code: Option<Seq<char>>,
    pub country: Option<Seq<char>>,
}

impl View for AddressClaim {
    type V = AddressView;

    open spec fn view(&self) -> AddressView {
        AddressView {
            formatted: self.formatted.deep_view(),
            street_address: self.street_address.deep_view(),
            locality: self.locality.deep_view(),
            region: self.region.deep_view(),
            postal_code: self.postal_code.deep_view(),
            country: self.country.deep_view(),
        }
    }
}

/// The address with every field absent.
pub open spec fn spec_empty_address() -> AddressView {
    AddressView {
        formatted: None,
        street_address: None,
        locality: None,
        region: None,
        postal_code: None,
        country: None,
    }
}

impl Default for AddressClaim {
    /// The empty address: every field absent.
    fn default() -> (r: Self)
        ensures
            r@ == spec_empty_address(),
    {
        let r = AddressClaim {
            formatted: None,
            street_address: None,
            locality: None,
            region: None,
            postal_code: None,
            country: None,
        };
        proof {
            assert(r@ =~= spec_empty_address());
        }
        r
    }
}

/// One step of address decoding: route a sub-field of the nested object to
/// its slot. A sub-field seen twice is a duplicate; an unknown sub-field is
/// ignored.
pub open spec fn addr_update(st: AddressView, key: Seq<char>, val: Seq<char>) -> Result<
    AddressView,
    ErrorView,
> {
    if key == "formatted"@ {
        if st.formatted is Some {
            Err(ErrorView::DuplicateField(key, None))
        } else {
            Ok(AddressView { formatted: Some(val), ..st })
        }
    } else if key == "street_address"@ {
        if st.street_address is Some {
            Err(ErrorView::DuplicateField(key, None))
        } else {
            Ok(AddressView { street_address: Some(val), ..st })
        }
    } else if key == "locality"@ {
        if st.locality is Some {
            Err(ErrorView::DuplicateField(key, None))
        } else {
            Ok(AddressView { locality: Some(val), ..st })
        }
    } else if key == "region"@ {
        if st.region is Some {
            Err(ErrorView::DuplicateField(key, None))
        } else {
            Ok(AddressView { region: Some(val), ..st })
        }
    } else if key == "postal_code"@ {
        if st.postal_code is Some {
            Err(ErrorView::DuplicateField(key, None))
        } else {
            Ok(AddressView { postal_code: Some(val), ..st })
        }
    } else if key == "country"@ {
        if st.country is Some {
            Err(ErrorView::DuplicateField(key, None))
        } else {
            Ok(AddressView { country: Some(val), ..st })
        }
    } else {
        Ok(st)
    }
}

/// Decode a sequence of nested-object entries, left to right, from a given
/// starting state.
pub open spec fn addr_fold(
    ps: Seq<(Seq<char>, Seq<char>)>,
    r: Result<AddressView, ErrorView>,
) -> Result<AddressView, ErrorView>
    decreases ps.len(),
{
    match r {
        Err(e) => Err(e),
        Ok(st) => if ps.len() == 0 {
            Ok(st)
        } else {
            addr_fold(ps.drop_first(), addr_update(st, ps[0].0, ps[0].1))
        },
    }
}

/// What decoding a whole nested address object yields.
pub open spec fn spec_decode_address(ps: Seq<(Seq<char>, Seq<char>)>) -> Result<
    AddressView,
    ErrorView,
> {
    addr_fold(ps, Ok(spec_empty_address()))
}

/// Folding one more entry at the end folds the rest first, then the entry.
pub proof fn lemma_addr_fold_snoc(
    ps: Seq<(Seq<char>, Seq<char>)>,
    x: (Seq<char>, Seq<char>),
    r: Result<AddressView, ErrorView>,
)
    ensures
        addr_fold(ps, r) matches Err(e) ==> addr_fold(ps.push(x), r) == Err::<
            AddressView,
            ErrorView,
        >(e),
        addr_fold(ps, r) matches Ok(st) ==> addr_fold(ps.push(x), r) == addr_update(
            st,
            x.0,
            x.1,
        ),
    decreases ps.len(),
{
    match r {
        Err(e) => {
            assert(addr_fold(ps.push(x), r) == Err::<AddressView, ErrorView>(e));
            assert(addr_fold(ps, r) == Err::<AddressView, ErrorView>(e));
        },
        Ok(st) => {
            if ps.len() == 0 {
                assert(ps.push(x)[0] == x);
                assert(ps.push(x).drop_first() =~= ps);
                let u = addr_update(st, x.0, x.1);
                assert(addr_fold(ps.push(x), r) == addr_fold(ps, u));
                assert(addr_fold(ps, u) == u);
                assert(addr_fold(ps, r) == Ok::<AddressView, ErrorView>(st));
            } else {
                assert(ps.push(x)[0] == ps[0]);
                assert(ps.push(x).drop_first() =~= ps.drop_first().push(x));
                let r2 = addr_update(st, ps[0].0, ps[0].1);
                lemma_addr_fold_snoc(ps.drop_first(), x, r2);
                assert(addr_fold(ps.push(x), r) == addr_fold(ps.drop_first().push(x), r2));
                assert(addr_fold(ps, r) == addr_fold(ps.drop_first(), r2));
            }
        },
    }
}

/// Folding a concatenation folds the first part, then the second.
pub proof fn lemma_addr_fold_append(
    s1: Seq<(Seq<char>, Seq<char>)>,
    s2: Seq<(Seq<char>, Seq<char>)>,
    r: Result<AddressView, ErrorView>,
)
    ensures
        addr_fold(s1 + s2, r) == addr_fold(s2, addr_fold(s1, r)),
    decreases s1.len(),
{
    match r {
        Err(e) => {
            assert(addr_fold(s1 + s2, r) == Err::<AddressView, ErrorView>(e));
            assert(addr_fold(s1, r) == Err::<AddressView, ErrorView>(e));
            assert(addr_fold(s2, addr_fold(s1, r)) == Err::<AddressView, ErrorView>(e));
        },
        Ok(st) => {
            if s1.len() == 0 {
                assert(s1 + s2 =~= s2);
            } else {
                assert((s1 + s2)[0] == s1[0]);
                assert((s1 + s2).drop_first() =~= s1.drop_first() + s2);
                lemma_addr_fold_append(s1.drop_first(), s2, addr_update(st, s1[0].0, s1[0].1));
            }
        },
    }
}

/// The wire entries of one optional sub-field: one pair when present,
/// nothing when absent.
pub open spec fn field_pairs(name: Seq<char>, v: Option<Seq<char>>) -> Seq<(Seq<char>, Seq<char>)> {
    match v {
        None => Seq::empty(),
        Some(x) => seq![(name, x)],
    }
}

/// The nested-object entries an address encodes to, in declared field order.
pub open spec fn spec_encode_address(a: AddressView) -> Seq<(Seq<char>, Seq<char>)> {
    field_pairs("formatted"@, a.formatted) + field_pairs("street_address"@, a.street_address)
        + field_pairs("locality"@, a.locality) + field_pairs("region"@, a.region) + field_pairs(
        "postal_code"@,
        a.postal_code,
    ) + field_pairs("country"@, a.country)
}

impl AddressClaim {
    /// Decode the entries of a nested address object, in one pass. Each
    /// known sub-field may appear at most once; unknown sub-fields are
    /// ignored.
    pub fn decode_object(pairs: &Vec<(String, String)>) -> (r: Result<AddressClaim, ClaimError>)
        ensures
            match r {
                Ok(a) => spec_decode_address(pairs.deep_view()) == Ok::<AddressView, ErrorView>(a@),
                Err(e) => spec_decode_address(pairs.deep_view()) == Err::<AddressView, ErrorView>(
                    e@,
                ),
            },
    {
        let ghost dv = pairs.deep_view();
        let mut a = AddressClaim::default();
        let n = pairs.len();
        let mut i: usize = 0;
        while i < n
            invariant
                i <= n,
                n == pairs@.len(),
                dv == pairs.deep_view(),
                addr_fold(dv.take(i as int), Ok(spec_empty_address())) == Ok::<
                    AddressView,
                    ErrorView,
                >(a@),
            decreases n - i,
        {
            let key = &pairs[i].0;
            let val = &pairs[i].1;
            proof {
                assert(dv[i as int] == (key@, val@));
                assert(dv.take(i as int).push(dv[i as int]) =~= dv.take(i as int + 1));
                lemma_addr_fold_snoc(dv.take(i as int), dv[i as int], Ok(spec_empty_address()));
            }
            let dup: bool;
            if str_eq(key.as_str(), "formatted") {
                if a.formatted.is_none() {
                    a.formatted = Some(val.clone());
                    dup = false;
                } else {
                    dup = true;
                }
            } else if str_eq(key.as_str(), "street_address") {
                if a.street_address.is_none() {
                    a.street_address = Some(val.clone());
                    dup = false;
                } else {
                    dup = true;
                }
            } else if str_eq(key.as_str(), "locality") {
                if a.locality.is_none() {
                    a.locality = Some(val.clone());
                    dup = false;
                } else {
                    dup = true;
                }
            } else if str_eq(key.as_str(), "region") {
                if a.region.is_none() {
                    a.region = Some(val.clone());
                    dup = false;
                } else {
                    dup = true;
                }
            } else if str_eq(key.as_str(), "postal_code") {
                if a.postal_code.is_none() {
                    a.postal_code = Some(val.clone());
                    dup = false;
                } else {
                    dup = true;
                }
            } else if str_eq(key.as_str(), "country") {
                if a.country.is_none() {
                    a.country = Some(val.clone());
                    dup = false;
                } else {
                    dup = true;
                }
            } else {
                dup = false;
            }
            if dup {
                let e = ClaimError::DuplicateField(key.clone(), None);
                proof {
                    assert(addr_fold(dv.take(i as int + 1), Ok(spec_empty_address())) == Err::<
                        AddressView,
                        ErrorView,
                    >(e@));
                    assert(dv =~= dv.take(i as int + 1) + dv.subrange(i as int + 1, dv.len() as int));
                    lemma_addr_fold_append(
                        dv.take(i as int + 1),
                        dv.subrange(i as int + 1, dv.len() as int),
                        Ok(spec_empty_address()),
                    );
                }
                return Err(e);
            }
            proof {
                assert(addr_fold(dv.take(i as int + 1), Ok(spec_empty_address())) == Ok::<
                    AddressView,
                    ErrorView,
                >(a@));
            }
            i = i + 1;
        }
        proof {
            assert(dv.take(n as int) =~= dv);
        }
        Ok(a)
    }

    /// Encode the address as the entries of one nested object, in declared
    /// field order; absent sub-fields are left out.
    pub fn encode_object(&self) -> (r: Vec<(String, String)>)
        ensures
            r.deep_view() == spec_encode_address(self@),
    {
        let mut out: Vec<(String, String)> = Vec::new();
        if let Some(v) = &self.formatted {
            out.push((String::from_str("formatted"), v.clone()));
        }
        proof {
            assert(out.deep_view() =~= field_pairs("formatted"@, self@.formatted));
        }
        let ghost p1 = out.deep_view();
        if let Some(v) = &self.street_address {
            out.push((String::from_str("street_address"), v.clone()));
        }
        proof {
            assert(out.deep_view() =~= p1 + field_pairs("street_address"@, self@.street_address));
        }
        let ghost p2 = out.deep_view();
        if let Some(v) = &self.locality {
            out.push((String::from_str("locality"), v.clone()));
        }
        proof {
            assert(out.deep_view() =~= p2 + field_pairs("locality"@, self@.locality));
        }
        let ghost p3 = out.deep_view();
        if let Some(v) = &self.region {
            out.push((String::from_str("region"), v.clone()));
        }
        proof {
            assert(out.deep_view() =~= p3 + field_pairs("region"@, self@.region));
        }
        let ghost p4 = out.deep_view();
        if let Some(v) = &self.postal_code {
            out.push((String::from_str("postal_code"), v.clone()));
        }
        proof {
            assert(out.deep_view() =~= p4 + field_pairs("postal_code"@, self@.postal_code));
        }
        let ghost p5 = out.deep_view();
        if let Some(v) = &self.country {
            out.push((String::from_str("country"), v.clone()));
        }
        proof {
            assert(out.deep_view() =~= p5 + field_pairs("country"@, self@.country));
            assert(out.deep_view() =~= spec_encode_address(self@));
        }
        out
    }
}

/// Decoding the encoding of any address yields that address back.
#[verifier::rlimit(60)]
pub proof fn lemma_address_round_trip(a: AddressView)
    ensures
        spec_decode_address(spec_encode_address(a)) == Ok::<AddressView, ErrorView>(a),
{
    reveal_strlit("formatted");
    reveal_strlit("street_address");
    reveal_strlit("locality");
    reveal_strlit("region");
    reveal_strlit("postal_code");
    reveal_strlit("country");
    assert("formatted"@.len() == 9);
    assert("street_address"@.len() == 14);
    assert("locality"@.len() == 8);
    assert("region"@.len() == 6);
    assert("postal_code"@.len() == 11);
    assert("country"@.len() == 7);
    assert("street_address"@ != "formatted"@);
    assert("locality"@ != "formatted"@ && "locality"@ != "street_address"@);
    assert("region"@ != "formatted"@ && "region"@ != "street_address"@ && "region"@ != "locality"@);
    assert("postal_code"@ != "formatted"@ && "postal_code"@ != "street_address"@
        && "postal_code"@ != "locality"@ && "postal_code"@ != "region"@);
    assert("country"@ != "formatted"@ && "country"@ != "street_address"@ && "country"@
        != "locality"@ && "country"@ != "region"@ && "country"@ != "postal_code"@);
    let e0 = spec_empty_address();
    let s1 = field_pairs("formatted"@, a.formatted);
    let s2 = field_pairs("street_address"@, a.street_address);
    let s3 = field_pairs("locality"@, a.locality);
    let s4 = field_pairs("region"@, a.region);
    let s5 = field_pairs("postal_code"@, a.postal_code);
    let s6 = field_pairs("country"@, a.country);
    let t1 = AddressView { formatted: a.formatted, ..e0 };
    let t2 = AddressView { street_address: a.street_address, ..t1 };
    let t3 = AddressView { locality: a.locality, ..t2 };
    let t4 = AddressView { region: a.region, ..t3 };
    let t5 = AddressView { postal_code: a.postal_code, ..t4 };
    let t6 = AddressView { country: a.country, ..t5 };
    lemma_addr_fold_one("formatted"@, a.formatted, e0);
    assert(addr_fold(s1, Ok(e0)) == Ok::<AddressView, ErrorView>(t1)) by {
        if a.formatted is None {
            assert(t1 =~= e0);
        }
    }
    lemma_addr_fold_one("street_address"@, a.street_address, t1);
    assert(addr_fold(s2, Ok(t1)) == Ok::<AddressView, ErrorView>(t2)) by {
        if a.street_address is None {
            assert(t2 =~= t1);
        }
    }
    lemma_addr_fold_one("locality"@, a.locality, t2);
    assert(addr_fold(s3, Ok(t2)) == Ok::<AddressView, ErrorView>(t3)) by {
        if a.locality is None {
            assert(t3 =~= t2);
        }
    }
    lemma_addr_fold_one("region"@, a.region, t3);
    assert(addr_fold(s4, Ok(t3)) == Ok::<AddressView, ErrorView>(t4)) by {
        if a.region is None {
            assert(t4 =~= t3);
        }
    }
    lemma_addr_fold_one("postal_code"@, a.postal_code, t4);
    assert(addr_fold(s5, Ok(t4)) == Ok::<AddressView, ErrorView>(t5)) by {
        if a.postal_code is None {
            assert(t5 =~= t4);
        }
    }
    lemma_addr_fold_one("country"@, a.country, t5);
    assert(addr_fold(s6, Ok(t5)) == Ok::<AddressView, ErrorView>(t6)) by {
        if a.country is None {
            assert(t6 =~= t5);
        }
    }
    lemma_addr_fold_append(s1, s2 + s3 + s4 + s5 + s6, Ok(e0));
    lemma_addr_fold_append(s2, s3 + s4 + s5 + s6, Ok(t1));
    lemma_addr_fold_append(s3, s4 + s5 + s6, Ok(t2));
    lemma_addr_fold_append(s4, s5 + s6, Ok(t3));
    lemma_addr_fold_append(s5, s6, Ok(t4));
    assert(spec_encode_address(a) =~= s1 + (s2 + s3 + s4 + s5 + s6));
    assert(s2 + s3 + s4 + s5 + s6 =~= s2 + (s3 + s4 + s5 + s6));
    assert(s3 + s4 + s5 + s6 =~= s3 + (s4 + s5 + s6));
    assert(s4 + s5 + s6 =~= s4 + (s5 + s6));
    assert(t6 =~= a);
}

/// Folding the segment of one sub-field from a state applies at most one
/// update for that sub-field.
proof fn lemma_addr_fold_one(name: Seq<char>, v: Option<Seq<char>>, st: AddressView)
    ensures
        addr_fold(field_pairs(name, v), Ok(st)) == (match v {
            None => Ok::<AddressView, ErrorView>(st),
            Some(x) => addr_update(st, name, x),
        }),
{
    let s = field_pairs(name, v);
    match v {
        None => {
            assert(s.len() == 0);
            assert(addr_fold(s, Ok(st)) == Ok::<AddressView, ErrorView>(st));
        },
        Some(x) => {
            assert(s.len() == 1);
            assert(s[0] == (name, x));
            assert(s.drop_first().len() == 0);
            let u = addr_update(st, name, x);
            assert(addr_fold(s.drop_first(), u) == u);
            assert(addr_fold(s, Ok(st)) == u);
        },
    }
}

} // verus!
