//! The flatten/unflatten engine: the single-pass decode of a flat key/value
//! map into per-field slots, as a specification, with the lemmas the codec's
//! round-trip guarantee rests on.

use vstd::prelude::*;
use crate::address::AddressView;
use crate::address::spec_decode_address;
use crate::claims::AdditionalClaims;
use crate::claims::ClaimsView;
use crate::claims::GenderClaim;
use crate::error::ErrorView;
use crate::helpers::spec_encode_key;
use crate::helpers::spec_split_key;
use crate::helpers::lemma_split_encode_key;
use crate::localized::distinct_tags;
use crate::value::ValueView;

verus! {

/// Why a decode pass fails: an error of the claim set's own taxonomy, or a
/// rejection by a caller-supplied decoder (gender value or additional
/// claims), whose error value travels through unchanged.
pub enum DecodeFailure {
    Core(ErrorView),
    Extension,
}

/// The per-field slots accumulated by the single decode pass over the flat
/// map, plus the deferred pairs no known field claimed.
#[verifier::ext_equal]
pub struct DecodeState<G> {
    pub sub: Option<Seq<char>>,
    pub name: Map<Option<Seq<char>>, Seq<char>>,
    pub given_name: Map<Option<Seq<char>>, Seq<char>>,
    pub family_name: Map<Option<Seq<char>>, Seq<char>>,
    pub middle_name: Map<Option<Seq<char>>, Seq<char>>,
    pub nickname: Map<Option<Seq<char>>, Seq<char>>,
    pub preferred_username: Option<Seq<char>>,
    pub profile: Map<Option<Seq<char>>, Seq<char>>,
    pub picture: Map<Option<Seq<char>>, Seq<char>>,
    pub website: Map<Option<Seq<char>>, Seq<char>>,
    pub email: Option<Seq<char>>,
    pub email_verified: Option<bool>,
    pub gender: Option<G>,
    pub birthday: Option<Seq<char>>,
    pub zoneinfo: Option<Seq<char>>,
    pub locale: Option<Seq<char>>,
    pub phone_number: Option<Seq<char>>,
    pub phone_number_verified: Option<bool>,
    pub address: Option<AddressView>,
    pub updated_at: Option<int>,
    pub extra: Seq<(Seq<char>, ValueView)>,
}

/// The state before any pair has been seen.
pub open spec fn empty_state<G>() -> DecodeState<G> {
    DecodeState {
        sub: None,
        name: Map::empty(),
        given_name: Map::empty(),
        family_name: Map::empty(),
        middle_name: Map::empty(),
        nickname: Map::empty(),
        preferred_username: None,
        profile: Map::empty(),
        picture: Map::empty(),
        website: Map::empty(),
        email: None,
        email_verified: None,
        gender: None,
        birthday: None,
        zoneinfo: None,
        locale: None,
        phone_number: None,
        phone_number_verified: None,
        address: None,
        updated_at: None,
        extra: Seq::empty(),
    }
}

/// The base names of the localizable fields.
pub open spec fn is_localized_name(base: Seq<char>) -> bool {
    ||| base == "name"@
    ||| base == "given_name"@
    ||| base == "family_name"@
    ||| base == "middle_name"@
    ||| base == "nickname"@
    ||| base == "profile"@
    ||| base == "picture"@
    ||| base == "website"@
}

/// Every base name the field table knows.
pub open spec fn is_known_field(base: Seq<char>) -> bool {
    ||| base == "sub"@
    ||| is_localized_name(base)
    ||| base == "preferred_username"@
    ||| base == "email"@
    ||| base == "email_verified"@
    ||| base == "gender"@
    ||| base == "birthday"@
    ||| base == "zoneinfo"@
    ||| base == "locale"@
    ||| base == "phone_number"@
    ||| base == "phone_number_verified"@
    ||| base == "address"@
    ||| base == "updated_at"@
}

/// The container slot of a localizable field, selected by base name.
pub open spec fn state_loc<G>(st: DecodeState<G>, base: Seq<char>) -> Map<
    Option<Seq<char>>,
    Seq<char>,
> {
    if base == "name"@ {
        st.name
    } else if base == "given_name"@ {
        st.given_name
    } else if base == "family_name"@ {
        st.family_name
    } else if base == "middle_name"@ {
        st.middle_name
    } else if base == "nickname"@ {
        st.nickname
    } else if base == "profile"@ {
        st.profile
    } else if base == "picture"@ {
        st.picture
    } else if base == "website"@ {
        st.website
    } else {
        Map::empty()
    }
}

/// Replace the container slot of a localizable field, selected by base name.
pub open spec fn state_with_loc<G>(
    st: DecodeState<G>,
    base: Seq<char>,
    m: Map<Option<Seq<char>>, Seq<char>>,
) -> DecodeState<G> {
    if base == "name"@ {
        DecodeState { name: m, ..st }
    } else if base == "given_name"@ {
        DecodeState { given_name: m, ..st }
    } else if base == "family_name"@ {
        DecodeState { family_name: m, ..st }
    } else if base == "middle_name"@ {
        DecodeState { middle_name: m, ..st }
    } else if base == "nickname"@ {
        DecodeState { nickname: m, ..st }
    } else if base == "profile"@ {
        DecodeState { profile: m, ..st }
    } else if base == "picture"@ {
        DecodeState { picture: m, ..st }
    } else if base == "website"@ {
        DecodeState { website: m, ..st }
    } else {
        st
    }
}

/// One step of the decode pass: split the key at its first `#`, route the
/// value by the base name's shape, detect duplicates, and defer unmatched
/// pairs. For a field that is not localizable, a tag suffix is an error; for
/// a localizable field, the tag selects the entry.
pub open spec fn decode_step<GC: GenderClaim>(
    st: DecodeState<<GC as View>::V>,
    key: Seq<char>,
    val: ValueView,
) -> Result<DecodeState<<GC as View>::V>, DecodeFailure> {
    let (base, tag) = spec_split_key(key);
    if base == "sub"@ {
        if tag is Some {
            Err(DecodeFailure::Core(ErrorView::UnexpectedLocalizedVariant(base)))
        } else if st.sub is Some {
            Err(DecodeFailure::Core(ErrorView::DuplicateField(base, None)))
        } else {
            match val {
                ValueView::Text(s) => Ok(DecodeState { sub: Some(s), ..st }),
                _ => Err(DecodeFailure::Core(ErrorView::TypeMismatch(base))),
            }
        }
    } else if is_localized_name(base) {
        if state_loc(st, base).contains_key(tag) {
            Err(DecodeFailure::Core(ErrorView::DuplicateField(base, tag)))
        } else {
            match val {
                ValueView::Text(s) => Ok(state_with_loc(st, base, state_loc(st, base).insert(tag, s))),
                _ => Err(DecodeFailure::Core(ErrorView::TypeMismatch(base))),
            }
        }
    } else if base == "preferred_username"@ {
        if tag is Some {
            Err(DecodeFailure::Core(ErrorView::UnexpectedLocalizedVariant(base)))
        } else if st.preferred_username is Some {
            Err(DecodeFailure::Core(ErrorView::DuplicateField(base, None)))
        } else {
            match val {
                ValueView::Text(s) => Ok(DecodeState { preferred_username: Some(s), ..st }),
                _ => Err(DecodeFailure::Core(ErrorView::TypeMismatch(base))),
            }
        }
    } else if base == "email"@ {
        if tag is Some {
            Err(DecodeFailure::Core(ErrorView::UnexpectedLocalizedVariant(base)))
        } else if st.email is Some {
            Err(DecodeFailure::Core(ErrorView::DuplicateField(base, None)))
        } else {
            match val {
                ValueView::Text(s) => Ok(DecodeState { email: Some(s), ..st }),
                _ => Err(DecodeFailure::Core(ErrorView::TypeMismatch(base))),
            }
        }
    } else if base == "email_verified"@ {
        if tag is Some {
            Err(DecodeFailure::Core(ErrorView::UnexpectedLocalizedVariant(base)))
        } else if st.email_verified is Some {
            Err(DecodeFailure::Core(ErrorView::DuplicateField(base, None)))
        } else {
            match val {
                ValueView::Flag(b) => Ok(DecodeState { email_verified: Some(b), ..st }),
                _ => Err(DecodeFailure::Core(ErrorView::TypeMismatch(base))),
            }
        }
    } else if base == "gender"@ {
        if tag is Some {
            Err(DecodeFailure::Core(ErrorView::UnexpectedLocalizedVariant(base)))
        } else if st.gender is Some {
            Err(DecodeFailure::Core(ErrorView::DuplicateField(base, None)))
        } else {
            match GC::spec_decode(val) {
                Some(g) => Ok(DecodeState { gender: Some(g), ..st }),
                None => Err(DecodeFailure::Extension),
            }
        }
    } else if base == "birthday"@ {
        if tag is Some {
            Err(DecodeFailure::Core(ErrorView::UnexpectedLocalizedVariant(base)))
        } else if st.birthday is Some {
            Err(DecodeFailure::Core(ErrorView::DuplicateField(base, None)))
        } else {
            match val {
                ValueView::Text(s) => Ok(DecodeState { birthday: Some(s), ..st }),
                _ => Err(DecodeFailure::Core(ErrorView::TypeMismatch(base))),
            }
        }
    } else if base == "zoneinfo"@ {
        if tag is Some {
            Err(DecodeFailure::Core(ErrorView::UnexpectedLocalizedVariant(base)))
        } else if st.zoneinfo is Some {
            Err(DecodeFailure::Core(ErrorView::DuplicateField(base, None)))
        } else {
            match val {
                ValueView::Text(s) => Ok(DecodeState { zoneinfo: Some(s), ..st }),
                _ => Err(DecodeFailure::Core(ErrorView::TypeMismatch(base))),
            }
        }
    } else if base == "locale"@ {
        if tag is Some {
            Err(DecodeFailure::Core(ErrorView::UnexpectedLocalizedVariant(base)))
        } else if st.locale is Some {
            Err(DecodeFailure::Core(ErrorView::DuplicateField(base, None)))
        } else {
            match val {
                ValueView::Text(s) => Ok(DecodeState { locale: Some(s), ..st }),
                _ => Err(DecodeFailure::Core(ErrorView::TypeMismatch(base))),
            }
        }
    } else if base == "phone_number"@ {
        if tag is Some {
            Err(DecodeFailure::Core(ErrorView::UnexpectedLocalizedVariant(base)))
        } else if st.phone_number is Some {
            Err(DecodeFailure::Core(ErrorView::DuplicateField(base, None)))
        } else {
            match val {
                ValueView::Text(s) => Ok(DecodeState { phone_number: Some(s), ..st }),
                _ => Err(DecodeFailure::Core(ErrorView::TypeMismatch(base))),
            }
        }
    } else if base == "phone_number_verified"@ {
        if tag is Some {
            Err(DecodeFailure::Core(ErrorView::UnexpectedLocalizedVariant(base)))
        } else if st.phone_number_verified is Some {
            Err(DecodeFailure::Core(ErrorView::DuplicateField(base, None)))
        } else {
            match val {
                ValueView::Flag(b) => Ok(DecodeState { phone_number_verified: Some(b), ..st }),
                _ => Err(DecodeFailure::Core(ErrorView::TypeMismatch(base))),
            }
        }
    } else if base == "address"@ {
        if tag is Some {
            Err(DecodeFailure::Core(ErrorView::UnexpectedLocalizedVariant(base)))
        } else if st.address is Some {
            Err(DecodeFailure::Core(ErrorView::DuplicateField(base, None)))
        } else {
            match val {
                ValueView::Object(ps) => match spec_decode_address(ps) {
                    Ok(a) => Ok(DecodeState { address: Some(a), ..st }),
                    Err(e) => Err(DecodeFailure::Core(e)),
                },
                _ => Err(DecodeFailure::Core(ErrorView::TypeMismatch(base))),
            }
        }
    } else if base == "updated_at"@ {
        if tag is Some {
            Err(DecodeFailure::Core(ErrorView::UnexpectedLocalizedVariant(base)))
        } else if st.updated_at is Some {
            Err(DecodeFailure::Core(ErrorView::DuplicateField(base, None)))
        } else {
            match val {
                ValueView::Integer(n) => Ok(DecodeState { updated_at: Some(n), ..st }),
                _ => Err(DecodeFailure::Core(ErrorView::TypeMismatch(base))),
            }
        }
    } else {
        Ok(DecodeState { extra: st.extra.push((key, val)), ..st })
    }
}

/// Decode a sequence of flat-map pairs, left to right, from a given state.
pub open spec fn decode_fold<GC: GenderClaim>(
    ps: Seq<(Seq<char>, ValueView)>,
    r: Result<DecodeState<<GC as View>::V>, DecodeFailure>,
) -> Result<DecodeState<<GC as View>::V>, DecodeFailure>
    decreases ps.len(),
{
    match r {
        Err(e) => Err(e),
        Ok(st) => if ps.len() == 0 {
            Ok(st)
        } else {
            decode_fold::<GC>(ps.drop_first(), decode_step::<GC>(st, ps[0].0, ps[0].1))
        },
    }
}

/// Folding one more pair at the end folds the rest first, then the pair.
pub proof fn lemma_decode_fold_snoc<GC: GenderClaim>(
    ps: Seq<(Seq<char>, ValueView)>,
    x: (Seq<char>, ValueView),
    r: Result<DecodeState<<GC as View>::V>, DecodeFailure>,
)
    ensures
        decode_fold::<GC>(ps, r) matches Err(e) ==> decode_fold::<GC>(ps.push(x), r) == Err::<
            DecodeState<<GC as View>::V>,
            DecodeFailure,
        >(e),
        decode_fold::<GC>(ps, r) matches Ok(st) ==> decode_fold::<GC>(ps.push(x), r)
            == decode_step::<GC>(st, x.0, x.1),
    decreases ps.len(),
{
    match r {
        Err(e) => {
            assert(decode_fold::<GC>(ps.push(x), r) == Err::<
                DecodeState<<GC as View>::V>,
                DecodeFailure,
            >(e));
            assert(decode_fold::<GC>(ps, r) == Err::<DecodeState<<GC as View>::V>, DecodeFailure>(
                e,
            ));
        },
        Ok(st) => {
            if ps.len() == 0 {
                assert(ps.push(x)[0] == x);
                assert(ps.push(x).drop_first() =~= ps);
                let u = decode_step::<GC>(st, x.0, x.1);
                assert(decode_fold::<GC>(ps.push(x), r) == decode_fold::<GC>(ps, u));
                assert(decode_fold::<GC>(ps, u) == u);
                assert(decode_fold::<GC>(ps, r) == Ok::<
                    DecodeState<<GC as View>::V>,
                    DecodeFailure,
                >(st));
            } else {
                assert(ps.push(x)[0] == ps[0]);
                assert(ps.push(x).drop_first() =~= ps.drop_first().push(x));
                let r2 = decode_step::<GC>(st, ps[0].0, ps[0].1);
                lemma_decode_fold_snoc::<GC>(ps.drop_first(), x, r2);
                assert(decode_fold::<GC>(ps.push(x), r) == decode_fold::<GC>(
                    ps.drop_first().push(x),
                    r2,
                ));
                assert(decode_fold::<GC>(ps, r) == decode_fold::<GC>(ps.drop_first(), r2));
            }
        },
    }
}

/// Folding a concatenation folds the first part, then the second.
pub proof fn lemma_decode_fold_append<GC: GenderClaim>(
    s1: Seq<(Seq<char>, ValueView)>,
    s2: Seq<(Seq<char>, ValueView)>,
    r: Result<DecodeState<<GC as View>::V>, DecodeFailure>,
)
    ensures
        decode_fold::<GC>(s1 + s2, r) == decode_fold::<GC>(s2, decode_fold::<GC>(s1, r)),
    decreases s1.len(),
{
    match r {
        Err(e) => {
            assert(decode_fold::<GC>(s1 + s2, r) == Err::<
                DecodeState<<GC as View>::V>,
                DecodeFailure,
            >(e));
            assert(decode_fold::<GC>(s1, r) == Err::<DecodeState<<GC as View>::V>, DecodeFailure>(
                e,
            ));
            assert(decode_fold::<GC>(s2, decode_fold::<GC>(s1, r)) == Err::<
                DecodeState<<GC as View>::V>,
                DecodeFailure,
            >(e));
        },
        Ok(st) => {
            if s1.len() == 0 {
                assert(s1 + s2 =~= s2);
            } else {
                assert((s1 + s2)[0] == s1[0]);
                assert((s1 + s2).drop_first() =~= s1.drop_first() + s2);
                lemma_decode_fold_append::<GC>(
                    s1.drop_first(),
                    s2,
                    decode_step::<GC>(st, s1[0].0, s1[0].1),
                );
            }
        },
    }
}

/// Insert a sequence of `(tag, value)` entries into a mapping, first to
/// last.
pub open spec fn insert_seq(
    m: Map<Option<Seq<char>>, Seq<char>>,
    s: Seq<(Option<Seq<char>>, Seq<char>)>,
) -> Map<Option<Seq<char>>, Seq<char>>
    decreases s.len(),
{
    if s.len() == 0 {
        m
    } else {
        insert_seq(m.insert(s[0].0, s[0].1), s.drop_first())
    }
}

/// The claim set view assembled from a finished decode state.
pub open spec fn state_to_view<GC: GenderClaim, AC: AdditionalClaims>(
    st: DecodeState<<GC as View>::V>,
    sub: Seq<char>,
    additional: <AC as View>::V,
) -> ClaimsView<<GC as View>::V, <AC as View>::V> {
    ClaimsView {
        sub,
        name: st.name,
        given_name: st.given_name,
        family_name: st.family_name,
        middle_name: st.middle_name,
        nickname: st.nickname,
        preferred_username: st.preferred_username,
        profile: st.profile,
        picture: st.picture,
        website: st.website,
        email: st.email,
        email_verified: st.email_verified,
        gender: st.gender,
        birthday: st.birthday,
        zoneinfo: st.zoneinfo,
        locale: st.locale,
        phone_number: st.phone_number,
        phone_number_verified: st.phone_number_verified,
        address: st.address,
        updated_at: st.updated_at,
        additional,
    }
}

/// What decoding a whole flat map yields: the single pass over all pairs,
/// then the required-subject check, then the extension payload's own decode
/// of the deferred pairs.
pub open spec fn spec_decode_claims<GC: GenderClaim, AC: AdditionalClaims>(
    ps: Seq<(Seq<char>, ValueView)>,
) -> Result<ClaimsView<<GC as View>::V, <AC as View>::V>, DecodeFailure> {
    match decode_fold::<GC>(ps, Ok(empty_state())) {
        Err(e) => Err(e),
        Ok(st) => match st.sub {
            None => Err(DecodeFailure::Core(ErrorView::MissingRequiredField("sub"@))),
            Some(sub) => match AC::spec_decode(st.extra) {
                None => Err(DecodeFailure::Extension),
                Some(av) => Ok(state_to_view::<GC, AC>(st, sub, av)),
            },
        },
    }
}

/// The wire pairs of one localized field: each entry's key assembled from
/// the base name and its tag, in entry order.
pub open spec fn localized_pairs(
    base: Seq<char>,
    entries: Seq<(Option<Seq<char>>, Seq<char>)>,
) -> Seq<(Seq<char>, ValueView)> {
    entries.map_values(
        |e: (Option<Seq<char>>, Seq<char>)| (spec_encode_key(base, e.0), ValueView::Text(e.1)),
    )
}

/// Folding the wire pairs of one localized field inserts exactly its
/// entries into that field's slot.
pub proof fn lemma_fold_localized<GC: GenderClaim>(
    base: Seq<char>,
    entries: Seq<(Option<Seq<char>>, Seq<char>)>,
    st: DecodeState<<GC as View>::V>,
)
    requires
        is_localized_name(base),
        base != "sub"@,
        forall|j: int| 0 <= j < base.len() ==> base[j] != '#',
        distinct_tags(entries),
        forall|i: int|
            0 <= i < entries.len() ==> !state_loc(st, base).contains_key(#[trigger] entries[i].0),
    ensures
        decode_fold::<GC>(localized_pairs(base, entries), Ok(st)) == Ok::<
            DecodeState<<GC as View>::V>,
            DecodeFailure,
        >(state_with_loc(st, base, insert_seq(state_loc(st, base), entries))),
    decreases entries.len(),
{
    let lp = localized_pairs(base, entries);
    if entries.len() == 0 {
        assert(lp.len() == 0);
        assert(state_with_loc(st, base, state_loc(st, base)) =~= st);
    } else {
        let e0 = entries[0];
        let key = spec_encode_key(base, e0.0);
        lemma_split_encode_key(base, e0.0);
        let m = state_loc(st, base);
        let m2 = m.insert(e0.0, e0.1);
        let st2 = state_with_loc(st, base, m2);
        assert(lp[0] == (key, ValueView::Text(e0.1)));
        assert(decode_step::<GC>(st, key, ValueView::Text(e0.1)) == Ok::<
            DecodeState<<GC as View>::V>,
            DecodeFailure,
        >(st2));
        let rest = entries.drop_first();
        assert(lp.drop_first() =~= localized_pairs(base, rest));
        assert(state_loc(st2, base) == m2);
        assert(distinct_tags(rest)) by {
            assert forall|i: int, j: int| 0 <= i < j < rest.len() implies rest[i].0 != rest[j].0 by {
                assert(rest[i] == entries[i + 1]);
                assert(rest[j] == entries[j + 1]);
            }
        }
        assert forall|i: int|
            0 <= i < rest.len() implies !state_loc(st2, base).contains_key(
            #[trigger] rest[i].0,
        ) by {
            assert(rest[i] == entries[i + 1]);
            assert(entries[i + 1].0 != e0.0);
            assert(!m.contains_key(entries[i + 1].0));
        }
        lemma_fold_localized::<GC>(base, rest, st2);
        assert(decode_fold::<GC>(lp, Ok(st)) == decode_fold::<GC>(lp.drop_first(), Ok(st2)));
        assert(insert_seq(m, entries) == insert_seq(m2, rest));
        assert(state_with_loc(st2, base, insert_seq(m2, rest)) =~= state_with_loc(
            st,
            base,
            insert_seq(m2, rest),
        ));
    }
}

/// Folding pairs whose base names the field table does not know defers all
/// of them, in order, and changes nothing else.
pub proof fn lemma_fold_unknown<GC: GenderClaim>(
    ps: Seq<(Seq<char>, ValueView)>,
    st: DecodeState<<GC as View>::V>,
)
    requires
        forall|i: int|
            0 <= i < ps.len() ==> !is_known_field(spec_split_key(#[trigger] ps[i].0).0),
    ensures
        decode_fold::<GC>(ps, Ok(st)) == Ok::<DecodeState<<GC as View>::V>, DecodeFailure>(
            DecodeState { extra: st.extra + ps, ..st },
        ),
    decreases ps.len(),
{
    if ps.len() == 0 {
        assert(st.extra + ps =~= st.extra);
        assert(DecodeState { extra: st.extra + ps, ..st } =~= st);
    } else {
        let p0 = ps[0];
        assert((p0.0, p0.1) == p0);
        let st2 = DecodeState { extra: st.extra.push(p0), ..st };
        assert(decode_step::<GC>(st, p0.0, p0.1) == Ok::<
            DecodeState<<GC as View>::V>,
            DecodeFailure,
        >(st2));
        let rest = ps.drop_first();
        assert forall|i: int|
            0 <= i < rest.len() implies !is_known_field(spec_split_key(#[trigger] rest[i].0).0) by {
            assert(rest[i] == ps[i + 1]);
        }
        lemma_fold_unknown::<GC>(rest, st2);
        assert(st2.extra + rest =~= st.extra + ps);
        assert(DecodeState { extra: st2.extra + rest, ..st2 } =~= DecodeState {
            extra: st.extra + ps,
            ..st
        });
    }
}

/// The lengths and contents of the known field names: none holds a `#`, and
/// names of equal length differ.
pub proof fn lemma_known_field_names()
    ensures
        "sub"@.len() == 3,
        "name"@.len() == 4,
        "given_name"@.len() == 10,
        "family_name"@.len() == 11,
        "middle_name"@.len() == 11,
        "nickname"@.len() == 8,
        "preferred_username"@.len() == 18,
        "profile"@.len() == 7,
        "picture"@.len() == 7,
        "website"@.len() == 7,
        "email"@.len() == 5,
        "email_verified"@.len() == 14,
        "gender"@.len() == 6,
        "birthday"@.len() == 8,
        "zoneinfo"@.len() == 8,
        "locale"@.len() == 6,
        "phone_number"@.len() == 12,
        "phone_number_verified"@.len() == 21,
        "address"@.len() == 7,
        "updated_at"@.len() == 10,
        "family_name"@ != "middle_name"@,
        "nickname"@ != "birthday"@,
        "nickname"@ != "zoneinfo"@,
        "birthday"@ != "zoneinfo"@,
        "profile"@ != "picture"@,
        "profile"@ != "website"@,
        "profile"@ != "address"@,
        "picture"@ != "website"@,
        "picture"@ != "address"@,
        "website"@ != "address"@,
        "gender"@ != "locale"@,
        "given_name"@ != "updated_at"@,
        forall|j: int| 0 <= j < "sub"@.len() ==> "sub"@[j] != '#',
        forall|j: int| 0 <= j < "name"@.len() ==> "name"@[j] != '#',
        forall|j: int| 0 <= j < "given_name"@.len() ==> "given_name"@[j] != '#',
        forall|j: int| 0 <= j < "family_name"@.len() ==> "family_name"@[j] != '#',
        forall|j: int| 0 <= j < "middle_name"@.len() ==> "middle_name"@[j] != '#',
        forall|j: int| 0 <= j < "nickname"@.len() ==> "nickname"@[j] != '#',
        forall|j: int| 0 <= j < "preferred_username"@.len() ==> "preferred_username"@[j] != '#',
        forall|j: int| 0 <= j < "profile"@.len() ==> "profile"@[j] != '#',
        forall|j: int| 0 <= j < "picture"@.len() ==> "picture"@[j] != '#',
        forall|j: int| 0 <= j < "website"@.len() ==> "website"@[j] != '#',
        forall|j: int| 0 <= j < "email"@.len() ==> "email"@[j] != '#',
        forall|j: int| 0 <= j < "email_verified"@.len() ==> "email_verified"@[j] != '#',
        forall|j: int| 0 <= j < "gender"@.len() ==> "gender"@[j] != '#',
        forall|j: int| 0 <= j < "birthday"@.len() ==> "birthday"@[j] != '#',
        forall|j: int| 0 <= j < "zoneinfo"@.len() ==> "zoneinfo"@[j] != '#',
        forall|j: int| 0 <= j < "locale"@.len() ==> "locale"@[j] != '#',
        forall|j: int| 0 <= j < "phone_number"@.len() ==> "phone_number"@[j] != '#',
        forall|j: int| 0 <= j < "phone_number_verified"@.len() ==> "phone_number_verified"@[j]
            != '#',
        forall|j: int| 0 <= j < "address"@.len() ==> "address"@[j] != '#',
        forall|j: int| 0 <= j < "updated_at"@.len() ==> "updated_at"@[j] != '#',
{
    reveal_strlit("sub");
    reveal_strlit("name");
    reveal_strlit("given_name");
    reveal_strlit("family_name");
    reveal_strlit("middle_name");
    reveal_strlit("nickname");
    reveal_strlit("preferred_username");
    reveal_strlit("profile");
    reveal_strlit("picture");
    reveal_strlit("website");
    reveal_strlit("email");
    reveal_strlit("email_verified");
    reveal_strlit("gender");
    reveal_strlit("birthday");
    reveal_strlit("zoneinfo");
    reveal_strlit("locale");
    reveal_strlit("phone_number");
    reveal_strlit("phone_number_verified");
    reveal_strlit("address");
    reveal_strlit("updated_at");
    assert("family_name"@[0] == 'f' && "middle_name"@[0] == 'm');
    assert("nickname"@[0] == 'n' && "birthday"@[0] == 'b' && "zoneinfo"@[0] == 'z');
    assert("profile"@[0] == 'p' && "picture"@[0] == 'p' && "website"@[0] == 'w');
    assert("profile"@[1] == 'r' && "picture"@[1] == 'i');
    assert("address"@[0] == 'a');
    assert("gender"@[0] == 'g' && "locale"@[0] == 'l');
    assert("given_name"@[0] == 'g' && "updated_at"@[0] == 'u');
}

/// If the single pass reaches pair `i` in state `st` and the step on that
/// pair fails, the whole decode fails with that failure.
pub proof fn lemma_decode_error_at<GC: GenderClaim, AC: AdditionalClaims>(
    dv: Seq<(Seq<char>, ValueView)>,
    i: int,
    st: DecodeState<<GC as View>::V>,
    f: DecodeFailure,
)
    requires
        0 <= i < dv.len(),
        decode_fold::<GC>(dv.take(i), Ok(empty_state())) == Ok::<
            DecodeState<<GC as View>::V>,
            DecodeFailure,
        >(st),
        decode_step::<GC>(st, dv[i].0, dv[i].1) == Err::<
            DecodeState<<GC as View>::V>,
            DecodeFailure,
        >(f),
    ensures
        spec_decode_claims::<GC, AC>(dv) == Err::<
            ClaimsView<<GC as View>::V, <AC as View>::V>,
            DecodeFailure,
        >(f),
{
    lemma_decode_fold_snoc::<GC>(dv.take(i), dv[i], Ok(empty_state()));
    assert(dv.take(i).push(dv[i]) =~= dv.take(i + 1));
    assert(decode_fold::<GC>(dv.take(i + 1), Ok(empty_state())) == Err::<
        DecodeState<<GC as View>::V>,
        DecodeFailure,
    >(f));
    assert(dv =~= dv.take(i + 1) + dv.subrange(i + 1, dv.len() as int));
    lemma_decode_fold_append::<GC>(
        dv.take(i + 1),
        dv.subrange(i + 1, dv.len() as int),
        Ok(empty_state()),
    );
    assert(decode_fold::<GC>(
        dv.subrange(i + 1, dv.len() as int),
        Err::<DecodeState<<GC as View>::V>, DecodeFailure>(f),
    ) == Err::<DecodeState<<GC as View>::V>, DecodeFailure>(f));
}

/// The wire pairs of one optional single-valued field: one pair when
/// present, nothing when absent.
pub open spec fn value_pairs(base: Seq<char>, v: Option<ValueView>) -> Seq<(Seq<char>, ValueView)> {
    match v {
        None => Seq::empty(),
        Some(vv) => seq![(base, vv)],
    }
}

/// Wrap an optional string view as an optional wire value.
pub open spec fn text_opt(o: Option<Seq<char>>) -> Option<ValueView> {
    match o {
        None => None,
        Some(s) => Some(ValueView::Text(s)),
    }
}

/// Wrap an optional boolean as an optional wire value.
pub open spec fn flag_opt(o: Option<bool>) -> Option<ValueView> {
    match o {
        None => None,
        Some(b) => Some(ValueView::Flag(b)),
    }
}

/// Folding a single pair is one decode step.
pub proof fn lemma_fold_one<GC: GenderClaim>(
    p: (Seq<char>, ValueView),
    st: DecodeState<<GC as View>::V>,
)
    ensures
        decode_fold::<GC>(seq![p], Ok(st)) == decode_step::<GC>(st, p.0, p.1),
{
    let s = seq![p];
    assert(s[0] == p);
    assert(s.drop_first().len() == 0);
    let u = decode_step::<GC>(st, p.0, p.1);
    assert(decode_fold::<GC>(s.drop_first(), u) == u);
    assert(decode_fold::<GC>(s, Ok(st)) == u);
}

/// Folding the pairs of one optional single-valued field applies at most
/// one step.
pub proof fn lemma_fold_value_pairs<GC: GenderClaim>(
    base: Seq<char>,
    v: Option<ValueView>,
    st: DecodeState<<GC as View>::V>,
)
    ensures
        decode_fold::<GC>(value_pairs(base, v), Ok(st)) == (match v {
            None => Ok::<DecodeState<<GC as View>::V>, DecodeFailure>(st),
            Some(vv) => decode_step::<GC>(st, base, vv),
        }),
{
    match v {
        None => {
            assert(value_pairs(base, v).len() == 0);
            assert(decode_fold::<GC>(value_pairs(base, v), Ok(st)) == Ok::<
                DecodeState<<GC as View>::V>,
                DecodeFailure,
            >(st));
        },
        Some(vv) => {
            assert(value_pairs(base, v) =~= seq![(base, vv)]);
            lemma_fold_one::<GC>((base, vv), st);
        },
    }
}

/// Inserting one more entry at the end inserts the rest first, then it.
pub proof fn lemma_insert_seq_snoc(
    m: Map<Option<Seq<char>>, Seq<char>>,
    s: Seq<(Option<Seq<char>>, Seq<char>)>,
    x: (Option<Seq<char>>, Seq<char>),
)
    ensures
        insert_seq(m, s.push(x)) == insert_seq(m, s).insert(x.0, x.1),
    decreases s.len(),
{
    if s.len() == 0 {
        assert(s.push(x)[0] == x);
        assert(s.push(x).drop_first() =~= s);
        assert(insert_seq(m, s.push(x)) == insert_seq(m.insert(x.0, x.1), s));
        assert(insert_seq(m.insert(x.0, x.1), s) == m.insert(x.0, x.1));
        assert(insert_seq(m, s) == m);
    } else {
        assert(s.push(x)[0] == s[0]);
        assert(s.push(x).drop_first() =~= s.drop_first().push(x));
        lemma_insert_seq_snoc(m.insert(s[0].0, s[0].1), s.drop_first(), x);
        assert(insert_seq(m, s.push(x)) == insert_seq(
            m.insert(s[0].0, s[0].1),
            s.drop_first().push(x),
        ));
        assert(insert_seq(m, s) == insert_seq(m.insert(s[0].0, s[0].1), s.drop_first()));
    }
}

/// Inserting a sequence of entries into the empty mapping denotes the same
/// mapping as the entries themselves.
pub proof fn lemma_insert_seq_empty(s: Seq<(Option<Seq<char>>, Seq<char>)>)
    ensures
        insert_seq(Map::empty(), s) == crate::localized::map_of_entries(s),
    decreases s.len(),
{
    if s.len() == 0 {
    } else {
        let s0 = s.drop_last();
        lemma_insert_seq_empty(s0);
        lemma_insert_seq_snoc(Map::empty(), s0, s.last());
        assert(s0.push(s.last()) =~= s);
    }
}

} // verus!
