//! The claim set entity and its extension points.

use vstd::prelude::*;
use vstd::string::StringExecFns;
use crate::address::AddressClaim;
use crate::address::AddressView;
use crate::error::ClaimError;
use crate::localized::LocalizedClaim;
use crate::localized::distinct_tags;
use crate::localized::map_of_entries;
use crate::value::ClaimValue;
use crate::value::ValueView;
use crate::value::clone_pairs;
use crate::address::spec_encode_address;
use crate::codec::DecodeFailure;
use crate::codec::flag_opt;
use crate::codec::localized_pairs;
use crate::codec::text_opt;
use crate::codec::value_pairs;
use crate::helpers::assemble_key;
use crate::helpers::spec_encode_key;
use crate::codec::DecodeState;
use crate::codec::decode_fold;
use crate::codec::decode_step;
use crate::codec::empty_state;
use crate::codec::lemma_decode_error_at;
use crate::codec::lemma_decode_fold_append;
use crate::codec::lemma_fold_localized;
use crate::codec::lemma_fold_unknown;
use crate::codec::lemma_fold_value_pairs;
use crate::codec::lemma_insert_seq_empty;
use crate::codec::lemma_known_field_names;
use crate::codec::insert_seq;
use crate::codec::is_known_field;
use crate::codec::state_loc;
use crate::codec::state_with_loc;
use crate::helpers::lemma_split_encode_key;
use crate::helpers::spec_split_key;
use crate::address::lemma_address_round_trip;
use crate::codec::lemma_decode_fold_snoc;
use crate::codec::spec_decode_claims;
use crate::codec::state_to_view;
use crate::helpers::split_language_tag_key;
use crate::helpers::str_eq;

verus! {

/// A caller-supplied value type for the gender field.
///
/// The claim set treats the value as opaque: it only asks the type to encode
/// itself to one wire value and to decode itself back. `spec_encode` and
/// `spec_decode` are the type's own statement of that codec; the proof
/// obligation `lemma_round_trip` makes every implementation round-trip-safe.
pub trait GenderClaim: View + Sized {
    /// The wire value this gender value encodes to.
    spec fn spec_encode(&self) -> ValueView;

    /// What decoding a wire value yields, if anything.
    spec fn spec_decode(v: ValueView) -> Option<<Self as View>::V>;

    /// Encode the value for the flat map.
    fn encode_value(&self) -> (r: ClaimValue)
        ensures
            r@ == self.spec_encode(),
    ;

    /// Decode a flat-map value; the error is the implementation's own.
    fn decode_value(v: &ClaimValue) -> (r: Result<Self, ClaimError>)
        ensures
            r matches Ok(g) ==> Self::spec_decode(v@) == Some(g@),
            r is Err ==> Self::spec_decode(v@) is None,
    ;

    /// Decoding what a value encodes to yields that value back.
    proof fn lemma_round_trip(&self)
        ensures
            Self::spec_decode(self.spec_encode()) == Some(self@),
    ;
}

/// A caller-supplied payload owning every flat-map key the claim set does
/// not recognize.
///
/// The claim set defers unmatched `(key, value)` pairs to this payload's own
/// decoder and merges the payload's own pairs into the encoded map. Whether
/// leftover keys are an error is this type's policy alone.
pub trait AdditionalClaims: View + Sized {
    /// The flat-map pairs this payload encodes to.
    spec fn spec_pairs(&self) -> Seq<(Seq<char>, ValueView)>;

    /// Whether encoding this payload succeeds.
    spec fn encode_succeeds(&self) -> bool;

    /// What decoding a sequence of deferred pairs yields, if anything.
    spec fn spec_decode(pairs: Seq<(Seq<char>, ValueView)>) -> Option<<Self as View>::V>;

    /// The payload of a claim set with nothing set: it encodes to no pairs.
    fn empty() -> (r: Self)
        ensures
            r.spec_pairs() == Seq::<(Seq<char>, ValueView)>::empty(),
            r.encode_succeeds(),
    ;

    /// Encode the payload's own pairs; the error is the implementation's own.
    fn encode_pairs(&self) -> (r: Result<Vec<(String, ClaimValue)>, ClaimError>)
        ensures
            r matches Ok(v) ==> v.deep_view() == self.spec_pairs(),
            r is Ok <==> self.encode_succeeds(),
    ;

    /// Decode the deferred pairs; the error is the implementation's own.
    fn decode_pairs(pairs: &Vec<(String, ClaimValue)>) -> (r: Result<Self, ClaimError>)
        ensures
            r matches Ok(a) ==> Self::spec_decode(pairs.deep_view()) == Some(a@),
            r is Err ==> Self::spec_decode(pairs.deep_view()) is None,
    ;

    /// Decoding what a payload encodes to yields that payload back.
    proof fn lemma_round_trip(&self)
        requires
            self.encode_succeeds(),
        ensures
            Self::spec_decode(self.spec_pairs()) == Some(self@),
    ;
}

/// The payload of a claim set that carries no additional claims. Its decoder
/// accepts and discards whatever pairs are left over.
#[derive(Clone, Debug, Default, PartialEq)]
pub struct EmptyAdditionalClaims {}

impl View for EmptyAdditionalClaims {
    type V = ();

    open spec fn view(&self) -> () {
        ()
    }
}

impl AdditionalClaims for EmptyAdditionalClaims {
    open spec fn spec_pairs(&self) -> Seq<(Seq<char>, ValueView)> {
        Seq::empty()
    }

    open spec fn encode_succeeds(&self) -> bool {
        true
    }

    open spec fn spec_decode(pairs: Seq<(Seq<char>, ValueView)>) -> Option<()> {
        Some(())
    }

    fn empty() -> (r: Self) {
        EmptyAdditionalClaims {  }
    }

    fn encode_pairs(&self) -> (r: Result<Vec<(String, ClaimValue)>, ClaimError>) {
        let v: Vec<(String, ClaimValue)> = Vec::new();
        proof {
            assert(v.deep_view() =~= Seq::<(Seq<char>, ValueView)>::empty());
        }
        Ok(v)
    }

    fn decode_pairs(pairs: &Vec<(String, ClaimValue)>) -> (r: Result<Self, ClaimError>) {
        Ok(EmptyAdditionalClaims {  })
    }

    proof fn lemma_round_trip(&self) {
    }
}

/// A payload that owns no additional claims and rejects any leftover key:
/// decoding fails with [`ClaimError::UnexpectedField`] on the first key it
/// sees.
#[derive(Clone, Debug, Default, PartialEq)]
pub struct StrictAdditionalClaims {}

impl View for StrictAdditionalClaims {
    type V = ();

    open spec fn view(&self) -> () {
        ()
    }
}

impl AdditionalClaims for StrictAdditionalClaims {
    open spec fn spec_pairs(&self) -> Seq<(Seq<char>, ValueView)> {
        Seq::empty()
    }

    open spec fn encode_succeeds(&self) -> bool {
        true
    }

    open spec fn spec_decode(pairs: Seq<(Seq<char>, ValueView)>) -> Option<()> {
        if pairs.len() == 0 {
            Some(())
        } else {
            None
        }
    }

    fn empty() -> (r: Self) {
        StrictAdditionalClaims {  }
    }

    fn encode_pairs(&self) -> (r: Result<Vec<(String, ClaimValue)>, ClaimError>) {
        let v: Vec<(String, ClaimValue)> = Vec::new();
        proof {
            assert(v.deep_view() =~= Seq::<(Seq<char>, ValueView)>::empty());
        }
        Ok(v)
    }

    fn decode_pairs(pairs: &Vec<(String, ClaimValue)>) -> (r: Result<Self, ClaimError>) {
        if pairs.len() == 0 {
            Ok(StrictAdditionalClaims {  })
        } else {
            Err(ClaimError::UnexpectedField(pairs[0].0.clone()))
        }
    }

    proof fn lemma_round_trip(&self) {
    }
}

/// A payload that keeps every deferred pair verbatim, in the order seen, and
/// re-emits them unchanged when encoding.
#[derive(Clone, Debug, Default, PartialEq)]
pub struct RawAdditionalClaims {
    pub pairs: Vec<(String, ClaimValue)>,
}

impl View for RawAdditionalClaims {
    type V = Seq<(Seq<char>, ValueView)>;

    open spec fn view(&self) -> Seq<(Seq<char>, ValueView)> {
        self.pairs.deep_view()
    }
}

impl AdditionalClaims for RawAdditionalClaims {
    open spec fn spec_pairs(&self) -> Seq<(Seq<char>, ValueView)> {
        self.pairs.deep_view()
    }

    open spec fn encode_succeeds(&self) -> bool {
        true
    }

    open spec fn spec_decode(pairs: Seq<(Seq<char>, ValueView)>) -> Option<
        Seq<(Seq<char>, ValueView)>,
    > {
        Some(pairs)
    }

    fn empty() -> (r: Self) {
        let v: Vec<(String, ClaimValue)> = Vec::new();
        proof {
            assert(v.deep_view() =~= Seq::<(Seq<char>, ValueView)>::empty());
        }
        RawAdditionalClaims { pairs: v }
    }

    fn encode_pairs(&self) -> (r: Result<Vec<(String, ClaimValue)>, ClaimError>) {
        Ok(clone_pairs(&self.pairs))
    }

    fn decode_pairs(pairs: &Vec<(String, ClaimValue)>) -> (r: Result<Self, ClaimError>) {
        Ok(RawAdditionalClaims { pairs: clone_pairs(pairs) })
    }

    proof fn lemma_round_trip(&self) {
    }
}

/// A gender value carried as one opaque string.
#[derive(Clone, Debug, PartialEq)]
pub struct TextGenderClaim {
    pub text: String,
}

impl View for TextGenderClaim {
    type V = Seq<char>;

    open spec fn view(&self) -> Seq<char> {
        self.text@
    }
}

impl GenderClaim for TextGenderClaim {
    open spec fn spec_encode(&self) -> ValueView {
        ValueView::Text(self.text@)
    }

    open spec fn spec_decode(v: ValueView) -> Option<Seq<char>> {
        match v {
            ValueView::Text(s) => Some(s),
            _ => None,
        }
    }

    fn encode_value(&self) -> (r: ClaimValue) {
        ClaimValue::Text(self.text.clone())
    }

    fn decode_value(v: &ClaimValue) -> (r: Result<Self, ClaimError>) {
        match v {
            ClaimValue::Text(s) => Ok(TextGenderClaim { text: s.clone() }),
            _ => Err(ClaimError::TypeMismatch(String::from_str("gender"))),
        }
    }

    proof fn lemma_round_trip(&self) {
    }
}

/// The mathematical shape of a claim set: localizable fields are mappings
/// from optional language tags to values, so two claim sets whose localized
/// entries differ only in order have the same view.
#[verifier::ext_equal]
pub struct ClaimsView<G, A> {
    pub sub: Seq<char>,
    pub name: Map<Option<Seq<char>>, Seq<char>>,
    pub given_name: Map<Option<Seq<char>>, Seq<char>>,
    pub family_name: Map<Option<Seq<char>>, Seq<char>>,
    pub middle_name: Map<Option<Seq<char>>, Seq<char>>,
    pub nickname: Map<Option<Seq<char>>, Seq<char>>,
    pub preferred_username: Option<Seq<char>>,
    pub profile: Map<Option<Seq<char>>, Seq<char>>,
    pub picture: Map<Option<Seq<char>>, Seq<char>>,
    pub website: Map<Option<Seq<char>>, Seq<char>>,
    pub email: Option<Seq<char>>,
    pub email_verified: Option<bool>,
    pub gender: Option<G>,
    pub birthday: Option<Seq<char>>,
    pub zoneinfo: Option<Seq<char>>,
    pub locale: Option<Seq<char>>,
    pub phone_number: Option<Seq<char>>,
    pub phone_number_verified: Option<bool>,
    pub address: Option<AddressView>,
    pub updated_at: Option<int>,
    pub additional: A,
}

/// The mapping an optional localized field denotes: absent means no entries.
pub open spec fn loc_map(f: Option<LocalizedClaim>) -> Map<Option<Seq<char>>, Seq<char>> {
    match f {
        None => Map::empty(),
        Some(c) => c.as_map(),
    }
}

/// The entry sequence of an optional localized field, in insertion order.
pub open spec fn loc_entries(f: Option<LocalizedClaim>) -> Seq<(Option<Seq<char>>, Seq<char>)> {
    match f {
        None => Seq::empty(),
        Some(c) => c@,
    }
}

/// Order independence: a claim set's view carries each localized field
/// through [`loc_map`], so two claim sets whose localized fields hold the
/// same collection of `(tag, value)` entries are equal, whatever order the
/// entries were inserted in.
pub proof fn lemma_localized_order_independent(a: LocalizedClaim, b: LocalizedClaim)
    requires
        a.wf(),
        b.wf(),
        a@.to_multiset() == b@.to_multiset(),
    ensures
        loc_map(Some(a)) == loc_map(Some(b)),
{
    crate::localized::lemma_map_of_entries_permutation(a@, b@);
}

/// The assembled identity claim set: one required subject identifier, the
/// standard optional profile fields, a caller-supplied gender value type and
/// a caller-supplied additional-claims payload.
#[derive(Clone, Debug, PartialEq)]
pub struct StandardClaims<GC, AC> where GC: GenderClaim, AC: AdditionalClaims {
    pub(crate) sub: String,
    pub(crate) name: Option<LocalizedClaim>,
    pub(crate) given_name: Option<LocalizedClaim>,
    pub(crate) family_name: Option<LocalizedClaim>,
    pub(crate) middle_name: Option<LocalizedClaim>,
    pub(crate) nickname: Option<LocalizedClaim>,
    pub(crate) preferred_username: Option<String>,
    pub(crate) profile: Option<LocalizedClaim>,
    pub(crate) picture: Option<LocalizedClaim>,
    pub(crate) website: Option<LocalizedClaim>,
    pub(crate) email: Option<String>,
    pub(crate) email_verified: Option<bool>,
    pub(crate) gender: Option<GC>,
    pub(crate) birthday: Option<String>,
    pub(crate) zoneinfo: Option<String>,
    pub(crate) locale: Option<String>,
    pub(crate) phone_number: Option<String>,
    pub(crate) phone_number_verified: Option<bool>,
    pub(crate) address: Option<AddressClaim>,
    pub(crate) updated_at: Option<i64>,
    pub(crate) additional: AC,
}

impl<GC: GenderClaim, AC: AdditionalClaims> View for StandardClaims<GC, AC> {
    type V = ClaimsView<<GC as View>::V, <AC as View>::V>;

    closed spec fn view(&self) -> Self::V {
        ClaimsView {
            sub: self.sub@,
            name: loc_map(self.name),
            given_name: loc_map(self.given_name),
            family_name: loc_map(self.family_name),
            middle_name: loc_map(self.middle_name),
            nickname: loc_map(self.nickname),
            preferred_username: self.preferred_username.deep_view(),
            profile: loc_map(self.profile),
            picture: loc_map(self.picture),
            website: loc_map(self.website),
            email: self.email.deep_view(),
            email_verified: self.email_verified.deep_view(),
            gender: match self.gender {
                None => None,
                Some(g) => Some(g@),
            },
            birthday: self.birthday.deep_view(),
            zoneinfo: self.zoneinfo.deep_view(),
            locale: self.locale.deep_view(),
            phone_number: self.phone_number.deep_view(),
            phone_number_verified: self.phone_number_verified.deep_view(),
            address: match self.address {
                None => None,
                Some(a) => Some(a@),
            },
            updated_at: match self.updated_at {
                None => None,
                Some(n) => Some(n as int),
            },
            additional: self.additional@,
        }
    }
}

impl<GC: GenderClaim, AC: AdditionalClaims> StandardClaims<GC, AC> {
    /// Every localized field's container holds at most one entry per tag.
    pub closed spec fn wf(&self) -> bool {
        &&& distinct_tags(loc_entries(self.name))
        &&& distinct_tags(loc_entries(self.given_name))
        &&& distinct_tags(loc_entries(self.family_name))
        &&& distinct_tags(loc_entries(self.middle_name))
        &&& distinct_tags(loc_entries(self.nickname))
        &&& distinct_tags(loc_entries(self.profile))
        &&& distinct_tags(loc_entries(self.picture))
        &&& distinct_tags(loc_entries(self.website))
    }

    /// A claim set asserting nothing but its subject identifier: every other
    /// field is unset and the additional-claims payload is empty.
    pub fn new(subject: String) -> (r: Self)
        ensures
            r.wf(),
            r@.sub == subject@,
            r@.name == Map::<Option<Seq<char>>, Seq<char>>::empty(),
            r@.given_name == Map::<Option<Seq<char>>, Seq<char>>::empty(),
            r@.family_name == Map::<Option<Seq<char>>, Seq<char>>::empty(),
            r@.middle_name == Map::<Option<Seq<char>>, Seq<char>>::empty(),
            r@.nickname == Map::<Option<Seq<char>>, Seq<char>>::empty(),
            r@.profile == Map::<Option<Seq<char>>, Seq<char>>::empty(),
            r@.picture == Map::<Option<Seq<char>>, Seq<char>>::empty(),
            r@.website == Map::<Option<Seq<char>>, Seq<char>>::empty(),
            r@.preferred_username is None,
            r@.email is None,
            r@.email_verified is None,
            r@.gender is None,
            r@.birthday is None,
            r@.zoneinfo is None,
            r@.locale is None,
            r@.phone_number is None,
            r@.phone_number_verified is None,
            r@.address is None,
            r@.updated_at is None,
            r.spec_additional().spec_pairs() == Seq::<(Seq<char>, ValueView)>::empty(),
            r.spec_additional().encode_succeeds(),
    {
        StandardClaims {
            sub: subject,
            name: None,
            given_name: None,
            family_name: None,
            middle_name: None,
            nickname: None,
            preferred_username: None,
            profile: None,
            picture: None,
            website: None,
            email: None,
            email_verified: None,
            gender: None,
            birthday: None,
            zoneinfo: None,
            locale: None,
            phone_number: None,
            phone_number_verified: None,
            address: None,
            updated_at: None,
            additional: AC::empty(),
        }
    }

    /// The additional-claims payload, as a specification value.
    pub closed spec fn spec_additional(&self) -> AC {
        self.additional
    }

    /// The additional-claims payload.
    pub fn additional_claims(&self) -> (r: &AC)
        ensures
            *r == self.spec_additional(),
            r@ == self@.additional,
    {
        &self.additional
    }

    /// The subject identifier.
    pub fn subject(&self) -> (r: &String)
        ensures
            r@ == self@.sub,
    {
        &self.sub
    }

    /// Replace the subject identifier.
    pub fn set_subject(self, subject: String) -> (r: Self)
        ensures
            r@ == (ClaimsView { sub: subject@, ..self@ }),
            r.wf() == self.wf(),
    {
        let mut s = self;
        s.sub = subject;
        proof {
            assert(s@ =~= (ClaimsView { sub: s.sub@, ..self@ }));
        }
        s
    }
}


/// The decode state denoted by the decoder's working slots: each localized
/// container as its mapping, each scalar slot as its view, the deferred
/// pairs as their views.
pub closed spec fn gather_state<GC: GenderClaim>(
    sub: Option<String>,
    name: LocalizedClaim,
    given_name: LocalizedClaim,
    family_name: LocalizedClaim,
    middle_name: LocalizedClaim,
    nickname: LocalizedClaim,
    preferred_username: Option<String>,
    profile: LocalizedClaim,
    picture: LocalizedClaim,
    website: LocalizedClaim,
    email: Option<String>,
    email_verified: Option<bool>,
    gender: Option<GC>,
    birthday: Option<String>,
    zoneinfo: Option<String>,
    locale: Option<String>,
    phone_number: Option<String>,
    phone_number_verified: Option<bool>,
    address: Option<AddressClaim>,
    updated_at: Option<i64>,
    extra: Vec<(String, ClaimValue)>,
) -> DecodeState<<GC as View>::V> {
    DecodeState {
        sub: sub.deep_view(),
        name: name.as_map(),
        given_name: given_name.as_map(),
        family_name: family_name.as_map(),
        middle_name: middle_name.as_map(),
        nickname: nickname.as_map(),
        preferred_username: preferred_username.deep_view(),
        profile: profile.as_map(),
        picture: picture.as_map(),
        website: website.as_map(),
        email: email.deep_view(),
        email_verified: email_verified.deep_view(),
        gender: match gender {
            None => None,
            Some(g) => Some(g@),
        },
        birthday: birthday.deep_view(),
        zoneinfo: zoneinfo.deep_view(),
        locale: locale.deep_view(),
        phone_number: phone_number.deep_view(),
        phone_number_verified: phone_number_verified.deep_view(),
        address: match address {
            None => None,
            Some(a) => Some(a@),
        },
        updated_at: match updated_at {
            None => None,
            Some(t) => Some(t as int),
        },
        extra: extra.deep_view(),
    }
}

impl<GC: GenderClaim, AC: AdditionalClaims> StandardClaims<GC, AC> {
    /// Decode one flat map, given as its `(key, value)` pairs in any order.
    ///
    /// The pairs are consumed in one pass: each key is split at its first
    /// `#`, routed to its field by base name, checked for duplicates, and
    /// unmatched pairs are deferred to the additional-claims payload's own
    /// decoder once the pass is done. The subject field is required. The
    /// result, success or each particular error, is exactly what
    /// [`spec_decode_claims`] yields on the pairs' views; an error of a
    /// caller-supplied decoder (gender or additional claims) is returned
    /// unchanged.
    #[verifier::rlimit(100)]
    pub fn decode(pairs: &Vec<(String, ClaimValue)>) -> (r: Result<Self, ClaimError>)
        ensures
            match spec_decode_claims::<GC, AC>(pairs.deep_view()) {
                Ok(v) => r matches Ok(c) && c@ == v && c.wf(),
                Err(DecodeFailure::Core(e)) => r matches Err(e2) && e2@ == e,
                Err(DecodeFailure::Extension) => r is Err,
            },
    {
        let ghost dv = pairs.deep_view();
        let mut sub: Option<String> = None;
        let mut name = LocalizedClaim::new();
        let mut given_name = LocalizedClaim::new();
        let mut family_name = LocalizedClaim::new();
        let mut middle_name = LocalizedClaim::new();
        let mut nickname = LocalizedClaim::new();
        let mut preferred_username: Option<String> = None;
        let mut profile = LocalizedClaim::new();
        let mut picture = LocalizedClaim::new();
        let mut website = LocalizedClaim::new();
        let mut email: Option<String> = None;
        let mut email_verified: Option<bool> = None;
        let mut gender: Option<GC> = None;
        let mut birthday: Option<String> = None;
        let mut zoneinfo: Option<String> = None;
        let mut locale: Option<String> = None;
        let mut phone_number: Option<String> = None;
        let mut phone_number_verified: Option<bool> = None;
        let mut address: Option<AddressClaim> = None;
        let mut updated_at: Option<i64> = None;
        let mut extra: Vec<(String, ClaimValue)> = Vec::new();
        let n = pairs.len();
        let mut i: usize = 0;
        proof {
            assert(gather_state::<GC>(sub, name, given_name, family_name, middle_name, nickname, preferred_username, profile, picture, website, email, email_verified, gender, birthday, zoneinfo, locale, phone_number, phone_number_verified, address, updated_at, extra) =~= empty_state::<<GC as View>::V>());
        }
        while i < n
            invariant
                i <= n,
                n == pairs@.len(),
                dv == pairs.deep_view(),
                name.wf(),
                given_name.wf(),
                family_name.wf(),
                middle_name.wf(),
                nickname.wf(),
                profile.wf(),
                picture.wf(),
                website.wf(),
                decode_fold::<GC>(dv.take(i as int), Ok(empty_state::<<GC as View>::V>()))
                    == Ok::<DecodeState<<GC as View>::V>, DecodeFailure>(gather_state::<GC>(sub, name, given_name, family_name, middle_name, nickname, preferred_username, profile, picture, website, email, email_verified, gender, birthday, zoneinfo, locale, phone_number, phone_number_verified, address, updated_at, extra)),
            decreases n - i,
        {
            let ghost st0 = gather_state::<GC>(sub, name, given_name, family_name, middle_name, nickname, preferred_username, profile, picture, website, email, email_verified, gender, birthday, zoneinfo, locale, phone_number, phone_number_verified, address, updated_at, extra);
            let key_s = &pairs[i].0;
            let val = &pairs[i].1;
            proof {
                assert(dv[i as int] == (key_s@, val@));
                assert(dv.take(i as int).push(dv[i as int]) =~= dv.take(i as int + 1));
                lemma_decode_fold_snoc::<GC>(dv.take(i as int), dv[i as int], Ok(empty_state()));
            }
            let ghost stepped = decode_step::<GC>(st0, dv[i as int].0, dv[i as int].1);
            let (base, tag) = split_language_tag_key(key_s.as_str());
            if str_eq(base.as_str(), "sub") {
            if tag.is_some() {
                let e = ClaimError::UnexpectedLocalizedVariant(base);
                proof {
                    lemma_decode_error_at::<GC, AC>(dv, i as int, st0, DecodeFailure::Core(e@));
                }
                return Err(e);
            } else if sub.is_some() {
                let e = ClaimError::DuplicateField(base, None);
                proof {
                    lemma_decode_error_at::<GC, AC>(dv, i as int, st0, DecodeFailure::Core(e@));
                }
                return Err(e);
            } else {
                match val {
                    ClaimValue::Text(s) => {
                        sub = Some(s.clone());
                        proof {
                            assert(stepped == Ok::<DecodeState<<GC as View>::V>, DecodeFailure>(gather_state::<GC>(sub, name, given_name, family_name, middle_name, nickname, preferred_username, profile, picture, website, email, email_verified, gender, birthday, zoneinfo, locale, phone_number, phone_number_verified, address, updated_at, extra)));
                        }
                    },
                    _ => {
                let e = ClaimError::TypeMismatch(base);
                proof {
                    lemma_decode_error_at::<GC, AC>(dv, i as int, st0, DecodeFailure::Core(e@));
                }
                return Err(e);
            },
                }
            }
        } else if str_eq(base.as_str(), "name") {
            match name.get(&tag) {
                Some(_) => {
                let e = ClaimError::DuplicateField(base, tag);
                proof {
                    lemma_decode_error_at::<GC, AC>(dv, i as int, st0, DecodeFailure::Core(e@));
                }
                return Err(e);
            },
                None => {
                    match val {
                        ClaimValue::Text(s) => {
                            let ghost t = tag.deep_view();
                            let ghost m0 = name@;
                            let _inserted = name.insert(tag, s.clone());
                            proof {
                                assert(name@.drop_last() =~= m0);
                                assert(name.as_map() == map_of_entries(m0).insert(t, s@));
                                assert(stepped == Ok::<DecodeState<<GC as View>::V>, DecodeFailure>(gather_state::<GC>(sub, name, given_name, family_name, middle_name, nickname, preferred_username, profile, picture, website, email, email_verified, gender, birthday, zoneinfo, locale, phone_number, phone_number_verified, address, updated_at, extra)));
                            }
                        },
                        _ => {
                let e = ClaimError::TypeMismatch(base);
                proof {
                    lemma_decode_error_at::<GC, AC>(dv, i as int, st0, DecodeFailure::Core(e@));
                }
                return Err(e);
            },
                    }
                },
            }
        } else if str_eq(base.as_str(), "given_name") {
            match given_name.get(&tag) {
                Some(_) => {
                let e = ClaimError::DuplicateField(base, tag);
                proof {
                    lemma_decode_error_at::<GC, AC>(dv, i as int, st0, DecodeFailure::Core(e@));
                }
                return Err(e);
            },
                None => {
                    match val {
                        ClaimValue::Text(s) => {
                            let ghost t = tag.deep_view();
                            let ghost m0 = given_name@;
                            let _inserted = given_name.insert(tag, s.clone());
                            proof {
                                assert(given_name@.drop_last() =~= m0);
                                assert(given_name.as_map() == map_of_entries(m0).insert(t, s@));
                                assert(stepped == Ok::<DecodeState<<GC as View>::V>, DecodeFailure>(gather_state::<GC>(sub, name, given_name, family_name, middle_name, nickname, preferred_username, profile, picture, website, email, email_verified, gender, birthday, zoneinfo, locale, phone_number, phone_number_verified, address, updated_at, extra)));
                            }
                        },
                        _ => {
                let e = ClaimError::TypeMismatch(base);
                proof {
                    lemma_decode_error_at::<GC, AC>(dv, i as int, st0, DecodeFailure::Core(e@));
                }
                return Err(e);
            },
                    }
                },
            }
        } else if str_eq(base.as_str(), "family_name") {
            match family_name.get(&tag) {
                Some(_) => {
                let e = ClaimError::DuplicateField(base, tag);
                proof {
                    lemma_decode_error_at::<GC, AC>(dv, i as int, st0, DecodeFailure::Core(e@));
                }
                return Err(e);
            },
                None => {
                    match val {
                        ClaimValue::Text(s) => {
                            let ghost t = tag.deep_view();
                            let ghost m0 = family_name@;
                            let _inserted = family_name.insert(tag, s.clone());
                            proof {
                                assert(family_name@.drop_last() =~= m0);
                                assert(family_name.as_map() == map_of_entries(m0).insert(t, s@));
                                assert(stepped == Ok::<DecodeState<<GC as View>::V>, DecodeFailure>(gather_state::<GC>(sub, name, given_name, family_name, middle_name, nickname, preferred_username, profile, picture, website, email, email_verified, gender, birthday, zoneinfo, locale, phone_number, phone_number_verified, address, updated_at, extra)));
                            }
                        },
                        _ => {
                let e = ClaimError::TypeMismatch(base);
                proof {
                    lemma_decode_error_at::<GC, AC>(dv, i as int, st0, DecodeFailure::Core(e@));
                }
                return Err(e);
            },
                    }
                },
            }
        } else if str_eq(base.as_str(), "middle_name") {
            match middle_name.get(&tag) {
                Some(_) => {
                let e = ClaimError::DuplicateField(base, tag);
                proof {
                    lemma_decode_error_at::<GC, AC>(dv, i as int, st0, DecodeFailure::Core(e@));
                }
                return Err(e);
            },
                None => {
                    match val {
                        ClaimValue::Text(s) => {
                            let ghost t = tag.deep_view();
                            let ghost m0 = middle_name@;
                            let _inserted = middle_name.insert(tag, s.clone());
                            proof {
                                assert(middle_name@.drop_last() =~= m0);
                                assert(middle_name.as_map() == map_of_entries(m0).insert(t, s@));
                                assert(stepped == Ok::<DecodeState<<GC as View>::V>, DecodeFailure>(gather_state::<GC>(sub, name, given_name, family_name, middle_name, nickname, preferred_username, profile, picture, website, email, email_verified, gender, birthday, zoneinfo, locale, phone_number, phone_number_verified, address, updated_at, extra)));
                            }
                        },
                        _ => {
                let e = ClaimError::TypeMismatch(base);
                proof {
                    lemma_decode_error_at::<GC, AC>(dv, i as int, st0, DecodeFailure::Core(e@));
                }
                return Err(e);
            },
                    }
                },
            }
        } else if str_eq(base.as_str(), "nickname") {
            match nickname.get(&tag) {
                Some(_) => {
                let e = ClaimError::DuplicateField(base, tag);
                proof {
                    lemma_decode_error_at::<GC, AC>(dv, i as int, st0, DecodeFailure::Core(e@));
                }
                return Err(e);
            },
                None => {
                    match val {
                        ClaimValue::Text(s) => {
                            let ghost t = tag.deep_view();
                            let ghost m0 = nickname@;
                            let _inserted = nickname.insert(tag, s.clone());
                            proof {
                                assert(nickname@.drop_last() =~= m0);
                                assert(nickname.as_map() == map_of_entries(m0).insert(t, s@));
                                assert(stepped == Ok::<DecodeState<<GC as View>::V>, DecodeFailure>(gather_state::<GC>(sub, name, given_name, family_name, middle_name, nickname, preferred_username, profile, picture, website, email, email_verified, gender, birthday, zoneinfo, locale, phone_number, phone_number_verified, address, updated_at, extra)));
                            }
                        },
                        _ => {
                let e = ClaimError::TypeMismatch(base);
                proof {
                    lemma_decode_error_at::<GC, AC>(dv, i as int, st0, DecodeFailure::Core(e@));
                }
                return Err(e);
            },
                    }
                },
            }
        } else if str_eq(base.as_str(), "profile") {
            match profile.get(&tag) {
                Some(_) => {
                let e = ClaimError::DuplicateField(base, tag);
                proof {
                    lemma_decode_error_at::<GC, AC>(dv, i as int, st0, DecodeFailure::Core(e@));
                }
                return Err(e);
            },
                None => {
                    match val {
                        ClaimValue::Text(s) => {
                            let ghost t = tag.deep_view();
                            let ghost m0 = profile@;
                            let _inserted = profile.insert(tag, s.clone());
                            proof {
                                assert(profile@.drop_last() =~= m0);
                                assert(profile.as_map() == map_of_entries(m0).insert(t, s@));
                                assert(stepped == Ok::<DecodeState<<GC as View>::V>, DecodeFailure>(gather_state::<GC>(sub, name, given_name, family_name, middle_name, nickname, preferred_username, profile, picture, website, email, email_verified, gender, birthday, zoneinfo, locale, phone_number, phone_number_verified, address, updated_at, extra)));
                            }
                        },
                        _ => {
                let e = ClaimError::TypeMismatch(base);
                proof {
                    lemma_decode_error_at::<GC, AC>(dv, i as int, st0, DecodeFailure::Core(e@));
                }
                return Err(e);
            },
                    }
                },
            }
        } else if str_eq(base.as_str(), "picture") {
            match picture.get(&tag) {
                Some(_) => {
                let e = ClaimError::DuplicateField(base, tag);
                proof {
                    lemma_decode_error_at::<GC, AC>(dv, i as int, st0, DecodeFailure::Core(e@));
                }
                return Err(e);
            },
                None => {
                    match val {
                        ClaimValue::Text(s) => {
                            let ghost t = tag.deep_view();
                            let ghost m0 = picture@;
                            let _inserted = picture.insert(tag, s.clone());
                            proof {
                                assert(picture@.drop_last() =~= m0);
                                assert(picture.as_map() == map_of_entries(m0).insert(t, s@));
                                assert(stepped == Ok::<DecodeState<<GC as View>::V>, DecodeFailure>(gather_state::<GC>(sub, name, given_name, family_name, middle_name, nickname, preferred_username, profile, picture, website, email, email_verified, gender, birthday, zoneinfo, locale, phone_number, phone_number_verified, address, updated_at, extra)));
                            }
                        },
                        _ => {
                let e = ClaimError::TypeMismatch(base);
                proof {
                    lemma_decode_error_at::<GC, AC>(dv, i as int, st0, DecodeFailure::Core(e@));
                }
                return Err(e);
            },
                    }
                },
            }
        } else if str_eq(base.as_str(), "website") {
            match website.get(&tag) {
                Some(_) => {
                let e = ClaimError::DuplicateField(base, tag);
                proof {
                    lemma_decode_error_at::<GC, AC>(dv, i as int, st0, DecodeFailure::Core(e@));
                }
                return Err(e);
            },
                None => {
                    match val {
                        ClaimValue::Text(s) => {
                            let ghost t = tag.deep_view();
                            let ghost m0 = website@;
                            let _inserted = website.insert(tag, s.clone());
                            proof {
                                assert(website@.drop_last() =~= m0);
                                assert(website.as_map() == map_of_entries(m0).insert(t, s@));
                                assert(stepped == Ok::<DecodeState<<GC as View>::V>, DecodeFailure>(gather_state::<GC>(sub, name, given_name, family_name, middle_name, nickname, preferred_username, profile, picture, website, email, email_verified, gender, birthday, zoneinfo, locale, phone_number, phone_number_verified, address, updated_at, extra)));
                            }
                        },
                        _ => {
                let e = ClaimError::TypeMismatch(base);
                proof {
                    lemma_decode_error_at::<GC, AC>(dv, i as int, st0, DecodeFailure::Core(e@));
                }
                return Err(e);
            },
                    }
                },
            }
        } else if str_eq(base.as_str(), "preferred_username") {
            if tag.is_some() {
                let e = ClaimError::UnexpectedLocalizedVariant(base);
                proof {
                    lemma_decode_error_at::<GC, AC>(dv, i as int, st0, DecodeFailure::Core(e@));
                }
                return Err(e);
            } else if preferred_username.is_some() {
                let e = ClaimError::DuplicateField(base, None);
                proof {
                    lemma_decode_error_at::<GC, AC>(dv, i as int, st0, DecodeFailure::Core(e@));
                }
                return Err(e);
            } else {
                match val {
                    ClaimValue::Text(s) => {
                        preferred_username = Some(s.clone());
                        proof {
                            assert(stepped == Ok::<DecodeState<<GC as View>::V>, DecodeFailure>(gather_state::<GC>(sub, name, given_name, family_name, middle_name, nickname, preferred_username, profile, picture, website, email, email_verified, gender, birthday, zoneinfo, locale, phone_number, phone_number_verified, address, updated_at, extra)));
                        }
                    },
                    _ => {
                let e = ClaimError::TypeMismatch(base);
                proof {
                    lemma_decode_error_at::<GC, AC>(dv, i as int, st0, DecodeFailure::Core(e@));
                }
                return Err(e);
            },
                }
            }
        } else if str_eq(base.as_str(), "email") {
            if tag.is_some() {
                let e = ClaimError::UnexpectedLocalizedVariant(base);
                proof {
                    lemma_decode_error_at::<GC, AC>(dv, i as int, st0, DecodeFailure::Core(e@));
                }
                return Err(e);
            } else if email.is_some() {
                let e = ClaimError::DuplicateField(base, None);
                proof {
                    lemma_decode_error_at::<GC, AC>(dv, i as int, st0, DecodeFailure::Core(e@));
                }
                return Err(e);
            } else {
                match val {
                    ClaimValue::Text(s) => {
                        email = Some(s.clone());
                        proof {
                            assert(stepped == Ok::<DecodeState<<GC as View>::V>, DecodeFailure>(gather_state::<GC>(sub, name, given_name, family_name, middle_name, nickname, preferred_username, profile, picture, website, email, email_verified, gender, birthday, zoneinfo, locale, phone_number, phone_number_verified, address, updated_at, extra)));
                        }
                    },
                    _ => {
                let e = ClaimError::TypeMismatch(base);
                proof {
                    lemma_decode_error_at::<GC, AC>(dv, i as int, st0, DecodeFailure::Core(e@));
                }
                return Err(e);
            },
                }
            }
        } else if str_eq(base.as_str(), "email_verified") {
            if tag.is_some() {
                let e = ClaimError::UnexpectedLocalizedVariant(base);
                proof {
                    lemma_decode_error_at::<GC, AC>(dv, i as int, st0, DecodeFailure::Core(e@));
                }
                return Err(e);
            } else if email_verified.is_some() {
                let e = ClaimError::DuplicateField(base, None);
                proof {
                    lemma_decode_error_at::<GC, AC>(dv, i as int, st0, DecodeFailure::Core(e@));
                }
                return Err(e);
            } else {
                match val {
                    ClaimValue::Flag(b) => {
                        email_verified = Some(*b);
                        proof {
                            assert(stepped == Ok::<DecodeState<<GC as View>::V>, DecodeFailure>(gather_state::<GC>(sub, name, given_name, family_name, middle_name, nickname, preferred_username, profile, picture, website, email, email_verified, gender, birthday, zoneinfo, locale, phone_number, phone_number_verified, address, updated_at, extra)));
                        }
                    },
                    _ => {
                let e = ClaimError::TypeMismatch(base);
                proof {
                    lemma_decode_error_at::<GC, AC>(dv, i as int, st0, DecodeFailure::Core(e@));
                }
                return Err(e);
            },
                }
            }
        } else if str_eq(base.as_str(), "gender") {
            if tag.is_some() {
                let e = ClaimError::UnexpectedLocalizedVariant(base);
                proof {
                    lemma_decode_error_at::<GC, AC>(dv, i as int, st0, DecodeFailure::Core(e@));
                }
                return Err(e);
            } else if gender.is_some() {
                let e = ClaimError::DuplicateField(base, None);
                proof {
                    lemma_decode_error_at::<GC, AC>(dv, i as int, st0, DecodeFailure::Core(e@));
                }
                return Err(e);
            } else {
                match GC::decode_value(val) {
                    Ok(g) => {
                        gender = Some(g);
                        proof {
                            assert(stepped == Ok::<DecodeState<<GC as View>::V>, DecodeFailure>(gather_state::<GC>(sub, name, given_name, family_name, middle_name, nickname, preferred_username, profile, picture, website, email, email_verified, gender, birthday, zoneinfo, locale, phone_number, phone_number_verified, address, updated_at, extra)));
                        }
                    },
                    Err(e) => {
                        proof {
                            lemma_decode_error_at::<GC, AC>(dv, i as int, st0, DecodeFailure::Extension);
                        }
                        return Err(e);
                    },
                }
            }
        } else if str_eq(base.as_str(), "birthday") {
            if tag.is_some() {
                let e = ClaimError::UnexpectedLocalizedVariant(base);
                proof {
                    lemma_decode_error_at::<GC, AC>(dv, i as int, st0, DecodeFailure::Core(e@));
                }
                return Err(e);
            } else if birthday.is_some() {
                let e = ClaimError::DuplicateField(base, None);
                proof {
                    lemma_decode_error_at::<GC, AC>(dv, i as int, st0, DecodeFailure::Core(e@));
                }
                return Err(e);
            } else {
                match val {
                    ClaimValue::Text(s) => {
                        birthday = Some(s.clone());
                        proof {
                            assert(stepped == Ok::<DecodeState<<GC as View>::V>, DecodeFailure>(gather_state::<GC>(sub, name, given_name, family_name, middle_name, nickname, preferred_username, profile, picture, website, email, email_verified, gender, birthday, zoneinfo, locale, phone_number, phone_number_verified, address, updated_at, extra)));
                        }
                    },
                    _ => {
                let e = ClaimError::TypeMismatch(base);
                proof {
                    lemma_decode_error_at::<GC, AC>(dv, i as int, st0, DecodeFailure::Core(e@));
                }
                return Err(e);
            },
                }
            }
        } else if str_eq(base.as_str(), "zoneinfo") {
            if tag.is_some() {
                let e = ClaimError::UnexpectedLocalizedVariant(base);
                proof {
                    lemma_decode_error_at::<GC, AC>(dv, i as int, st0, DecodeFailure::Core(e@));
                }
                return Err(e);
            } else if zoneinfo.is_some() {
                let e = ClaimError::DuplicateField(base, None);
                proof {
                    lemma_decode_error_at::<GC, AC>(dv, i as int, st0, DecodeFailure::Core(e@));
                }
                return Err(e);
            } else {
                match val {
                    ClaimValue::Text(s) => {
                        zoneinfo = Some(s.clone());
                        proof {
                            assert(stepped == Ok::<DecodeState<<GC as View>::V>, DecodeFailure>(gather_state::<GC>(sub, name, given_name, family_name, middle_name, nickname, preferred_username, profile, picture, website, email, email_verified, gender, birthday, zoneinfo, locale, phone_number, phone_number_verified, address, updated_at, extra)));
                        }
                    },
                    _ => {
                let e = ClaimError::TypeMismatch(base);
                proof {
                    lemma_decode_error_at::<GC, AC>(dv, i as int, st0, DecodeFailure::Core(e@));
                }
                return Err(e);
            },
                }
            }
        } else if str_eq(base.as_str(), "locale") {
            if tag.is_some() {
                let e = ClaimError::UnexpectedLocalizedVariant(base);
                proof {
                    lemma_decode_error_at::<GC, AC>(dv, i as int, st0, DecodeFailure::Core(e@));
                }
                return Err(e);
            } else if locale.is_some() {
                let e = ClaimError::DuplicateField(base, None);
                proof {
                    lemma_decode_error_at::<GC, AC>(dv, i as int, st0, DecodeFailure::Core(e@));
                }
                return Err(e);
            } else {
                match val {
                    ClaimValue::Text(s) => {
                        locale = Some(s.clone());
                        proof {
                            assert(stepped == Ok::<DecodeState<<GC as View>::V>, DecodeFailure>(gather_state::<GC>(sub, name, given_name, family_name, middle_name, nickname, preferred_username, profile, picture, website, email, email_verified, gender, birthday, zoneinfo, locale, phone_number, phone_number_verified, address, updated_at, extra)));
                        }
                    },
                    _ => {
                let e = ClaimError::TypeMismatch(base);
                proof {
                    lemma_decode_error_at::<GC, AC>(dv, i as int, st0, DecodeFailure::Core(e@));
                }
                return Err(e);
            },
                }
            }
        } else if str_eq(base.as_str(), "phone_number") {
            if tag.is_some() {
                let e = ClaimError::UnexpectedLocalizedVariant(base);
                proof {
                    lemma_decode_error_at::<GC, AC>(dv, i as int, st0, DecodeFailure::Core(e@));
                }
                return Err(e);
            } else if phone_number.is_some() {
                let e = ClaimError::DuplicateField(base, None);
                proof {
                    lemma_decode_error_at::<GC, AC>(dv, i as int, st0, DecodeFailure::Core(e@));
                }
                return Err(e);
            } else {
                match val {
                    ClaimValue::Text(s) => {
                        phone_number = Some(s.clone());
                        proof {
                            assert(stepped == Ok::<DecodeState<<GC as View>::V>, DecodeFailure>(gather_state::<GC>(sub, name, given_name, family_name, middle_name, nickname, preferred_username, profile, picture, website, email, email_verified, gender, birthday, zoneinfo, locale, phone_number, phone_number_verified, address, updated_at, extra)));
                        }
                    },
                    _ => {
                let e = ClaimError::TypeMismatch(base);
                proof {
                    lemma_decode_error_at::<GC, AC>(dv, i as int, st0, DecodeFailure::Core(e@));
                }
                return Err(e);
            },
                }
            }
        } else if str_eq(base.as_str(), "phone_number_verified") {
            if tag.is_some() {
                let e = ClaimError::UnexpectedLocalizedVariant(base);
                proof {
                    lemma_decode_error_at::<GC, AC>(dv, i as int, st0, DecodeFailure::Core(e@));
                }
                return Err(e);
            } else if phone_number_verified.is_some() {
                let e = ClaimError::DuplicateField(base, None);
                proof {
                    lemma_decode_error_at::<GC, AC>(dv, i as int, st0, DecodeFailure::Core(e@));
                }
                return Err(e);
            } else {
                match val {
                    ClaimValue::Flag(b) => {
                        phone_number_verified = Some(*b);
                        proof {
                            assert(stepped == Ok::<DecodeState<<GC as View>::V>, DecodeFailure>(gather_state::<GC>(sub, name, given_name, family_name, middle_name, nickname, preferred_username, profile, picture, website, email, email_verified, gender, birthday, zoneinfo, locale, phone_number, phone_number_verified, address, updated_at, extra)));
                        }
                    },
                    _ => {
                let e = ClaimError::TypeMismatch(base);
                proof {
                    lemma_decode_error_at::<GC, AC>(dv, i as int, st0, DecodeFailure::Core(e@));
                }
                return Err(e);
            },
                }
            }
        } else if str_eq(base.as_str(), "address") {
            if tag.is_some() {
                let e = ClaimError::UnexpectedLocalizedVariant(base);
                proof {
                    lemma_decode_error_at::<GC, AC>(dv, i as int, st0, DecodeFailure::Core(e@));
                }
                return Err(e);
            } else if address.is_some() {
                let e = ClaimError::DuplicateField(base, None);
                proof {
                    lemma_decode_error_at::<GC, AC>(dv, i as int, st0, DecodeFailure::Core(e@));
                }
                return Err(e);
            } else {
                match val {
                    ClaimValue::Object(obj) => {
                        proof {
                            assert(obj.deep_view() =~~= obj@.map_values(
                                |q: (String, String)| (q.0@, q.1@),
                            ));
                        }
                        match AddressClaim::decode_object(obj) {
                            Ok(a) => {
                                address = Some(a);
                                proof {
                                    assert(stepped == Ok::<DecodeState<<GC as View>::V>, DecodeFailure>(gather_state::<GC>(sub, name, given_name, family_name, middle_name, nickname, preferred_username, profile, picture, website, email, email_verified, gender, birthday, zoneinfo, locale, phone_number, phone_number_verified, address, updated_at, extra)));
                                }
                            },
                            Err(e) => {
                                proof {
                                    lemma_decode_error_at::<GC, AC>(dv, i as int, st0, DecodeFailure::Core(e@));
                                }
                                return Err(e);
                            },
                        }
                    },
                    _ => {
                let e = ClaimError::TypeMismatch(base);
                proof {
                    lemma_decode_error_at::<GC, AC>(dv, i as int, st0, DecodeFailure::Core(e@));
                }
                return Err(e);
            },
                }
            }
        } else if str_eq(base.as_str(), "updated_at") {
            if tag.is_some() {
                let e = ClaimError::UnexpectedLocalizedVariant(base);
                proof {
                    lemma_decode_error_at::<GC, AC>(dv, i as int, st0, DecodeFailure::Core(e@));
                }
                return Err(e);
            } else if updated_at.is_some() {
                let e = ClaimError::DuplicateField(base, None);
                proof {
                    lemma_decode_error_at::<GC, AC>(dv, i as int, st0, DecodeFailure::Core(e@));
                }
                return Err(e);
            } else {
                match val {
                    ClaimValue::Integer(x) => {
                        updated_at = Some(*x);
                        proof {
                            assert(stepped == Ok::<DecodeState<<GC as View>::V>, DecodeFailure>(gather_state::<GC>(sub, name, given_name, family_name, middle_name, nickname, preferred_username, profile, picture, website, email, email_verified, gender, birthday, zoneinfo, locale, phone_number, phone_number_verified, address, updated_at, extra)));
                        }
                    },
                    _ => {
                let e = ClaimError::TypeMismatch(base);
                proof {
                    lemma_decode_error_at::<GC, AC>(dv, i as int, st0, DecodeFailure::Core(e@));
                }
                return Err(e);
            },
                }
            }
        } else {
            let ghost xt0 = extra.deep_view();
            extra.push((key_s.clone(), val.clone()));
            proof {
                assert(extra.deep_view() =~~= xt0.push(dv[i as int]));
                assert(stepped == Ok::<DecodeState<<GC as View>::V>, DecodeFailure>(gather_state::<GC>(sub, name, given_name, family_name, middle_name, nickname, preferred_username, profile, picture, website, email, email_verified, gender, birthday, zoneinfo, locale, phone_number, phone_number_verified, address, updated_at, extra)));
            }
        }
            i = i + 1;
        }
        proof {
            assert(dv.take(n as int) =~= dv);
        }
        let ghost stf = gather_state::<GC>(sub, name, given_name, family_name, middle_name, nickname, preferred_username, profile, picture, website, email, email_verified, gender, birthday, zoneinfo, locale, phone_number, phone_number_verified, address, updated_at, extra);
        let final_sub = match sub {
            None => {
                let e = ClaimError::MissingRequiredField(String::from_str("sub"));
                return Err(e);
            },
            Some(s) => s,
        };
        match AC::decode_pairs(&extra) {
            Err(e) => {
                return Err(e);
            },
            Ok(ac) => {
                let ghost av = ac@;
                let name_f = if name.len() == 0 { None } else { Some(name) };
                let given_name_f = if given_name.len() == 0 { None } else { Some(given_name) };
                let family_name_f = if family_name.len() == 0 { None } else { Some(family_name) };
                let middle_name_f = if middle_name.len() == 0 { None } else { Some(middle_name) };
                let nickname_f = if nickname.len() == 0 { None } else { Some(nickname) };
                let profile_f = if profile.len() == 0 { None } else { Some(profile) };
                let picture_f = if picture.len() == 0 { None } else { Some(picture) };
                let website_f = if website.len() == 0 { None } else { Some(website) };
                let c = StandardClaims {
                    sub: final_sub,
                    name: name_f,
                    given_name: given_name_f,
                    family_name: family_name_f,
                    middle_name: middle_name_f,
                    nickname: nickname_f,
                    preferred_username,
                    profile: profile_f,
                    picture: picture_f,
                    website: website_f,
                    email,
                    email_verified,
                    gender,
                    birthday,
                    zoneinfo,
                    locale,
                    phone_number,
                    phone_number_verified,
                    address,
                    updated_at,
                    additional: ac,
                };
                proof {
                    assert(c@ =~= state_to_view::<GC, AC>(stf, stf.sub.unwrap(), av));
                }
                Ok(c)
            },
        }
    }
}


impl<GC: GenderClaim, AC: AdditionalClaims> StandardClaims<GC, AC> {
    /// The first half of the field table's pairs: the subject, the name
    /// fields, the preferred username and the profile URLs.
    pub closed spec fn spec_field_pairs_a(&self) -> Seq<(Seq<char>, ValueView)> {
        seq![("sub"@, ValueView::Text(self.sub@))]
        + localized_pairs("name"@, loc_entries(self.name))
        + localized_pairs("given_name"@, loc_entries(self.given_name))
        + localized_pairs("family_name"@, loc_entries(self.family_name))
        + localized_pairs("middle_name"@, loc_entries(self.middle_name))
        + localized_pairs("nickname"@, loc_entries(self.nickname))
        + value_pairs("preferred_username"@, text_opt(self.preferred_username.deep_view()))
        + localized_pairs("profile"@, loc_entries(self.profile))
        + localized_pairs("picture"@, loc_entries(self.picture))
        + localized_pairs("website"@, loc_entries(self.website))
    }

    /// The contact, gender and birthday pairs of the field table.
    pub closed spec fn spec_field_pairs_b1(&self) -> Seq<(Seq<char>, ValueView)> {
        value_pairs("email"@, text_opt(self.email.deep_view()))
        + value_pairs("email_verified"@, flag_opt(self.email_verified.deep_view()))
        + value_pairs("gender"@, match self.gender {
            None => None,
            Some(g) => Some(g.spec_encode()),
        })
        + value_pairs("birthday"@, text_opt(self.birthday.deep_view()))
        + value_pairs("zoneinfo"@, text_opt(self.zoneinfo.deep_view()))
    }

    /// The locale, phone, address and update-timestamp pairs of the field
    /// table.
    pub closed spec fn spec_field_pairs_b2(&self) -> Seq<(Seq<char>, ValueView)> {
        value_pairs("locale"@, text_opt(self.locale.deep_view()))
        + value_pairs("phone_number"@, text_opt(self.phone_number.deep_view()))
        + value_pairs("phone_number_verified"@, flag_opt(self.phone_number_verified.deep_view()))
        + value_pairs("address"@, match self.address {
            None => None,
            Some(a) => Some(ValueView::Object(spec_encode_address(a@))),
        })
        + value_pairs("updated_at"@, match self.updated_at {
            None => None,
            Some(t) => Some(ValueView::Integer(t as int)),
        })
    }

    /// The second half of the field table's pairs: contact, gender,
    /// birthday, locale and time zone, phone, address and update timestamp.
    pub closed spec fn spec_field_pairs_b(&self) -> Seq<(Seq<char>, ValueView)> {
        self.spec_field_pairs_b1() + self.spec_field_pairs_b2()
    }

    /// The flat map this claim set encodes to, as a sequence of pairs in the
    /// field table's fixed order: the subject first, then each field's pairs
    /// (a localized field contributes one pair per entry, in insertion
    /// order), and the additional-claims payload's pairs last.
    pub closed spec fn spec_encoded_pairs(&self) -> Seq<(Seq<char>, ValueView)> {
        self.spec_field_pairs_a() + self.spec_field_pairs_b() + self.additional.spec_pairs()
    }
}

impl<GC: GenderClaim, AC: AdditionalClaims> StandardClaims<GC, AC> {
    /// Append the first half of the field table's pairs.
    #[verifier::rlimit(100)]
    fn push_fields_a(&self, out: &mut Vec<(String, ClaimValue)>)
        ensures
            final(out).deep_view() == old(out).deep_view() + self.spec_field_pairs_a(),
    {
        push_pair(out, "sub", ClaimValue::Text(self.sub.clone()));
        proof {
            assert(out.deep_view() =~= old(out).deep_view() + seq![
                ("sub"@, ValueView::Text(self.sub@)),
            ]);
        }
        let ghost acc = out.deep_view();
        push_localized(out, "name", &self.name);
        proof {
            assert(out.deep_view() =~~= acc + localized_pairs("name"@, loc_entries(self.name)));
        }
        let ghost acc = out.deep_view();
        push_localized(out, "given_name", &self.given_name);
        proof {
            assert(out.deep_view() =~~= acc + localized_pairs("given_name"@, loc_entries(self.given_name)));
        }
        let ghost acc = out.deep_view();
        push_localized(out, "family_name", &self.family_name);
        proof {
            assert(out.deep_view() =~~= acc + localized_pairs("family_name"@, loc_entries(self.family_name)));
        }
        let ghost acc = out.deep_view();
        push_localized(out, "middle_name", &self.middle_name);
        proof {
            assert(out.deep_view() =~~= acc + localized_pairs("middle_name"@, loc_entries(self.middle_name)));
        }
        let ghost acc = out.deep_view();
        push_localized(out, "nickname", &self.nickname);
        proof {
            assert(out.deep_view() =~~= acc + localized_pairs("nickname"@, loc_entries(self.nickname)));
        }
        let ghost acc = out.deep_view();
        push_text_field(out, "preferred_username", &self.preferred_username);
        proof {
            assert(out.deep_view() =~~= acc + value_pairs("preferred_username"@, text_opt(self.preferred_username.deep_view())));
        }
        let ghost acc = out.deep_view();
        push_localized(out, "profile", &self.profile);
        proof {
            assert(out.deep_view() =~~= acc + localized_pairs("profile"@, loc_entries(self.profile)));
        }
        let ghost acc = out.deep_view();
        push_localized(out, "picture", &self.picture);
        proof {
            assert(out.deep_view() =~~= acc + localized_pairs("picture"@, loc_entries(self.picture)));
        }
        let ghost acc = out.deep_view();
        push_localized(out, "website", &self.website);
        proof {
            assert(out.deep_view() =~~= acc + localized_pairs("website"@, loc_entries(self.website)));
        }
        let ghost acc = out.deep_view();
        proof {
            assert(out.deep_view() =~~= old(out).deep_view() + self.spec_field_pairs_a());
        }
    }

    /// Append the contact, gender and birthday pairs.
    #[verifier::rlimit(100)]
    fn push_fields_b1(&self, out: &mut Vec<(String, ClaimValue)>)
        ensures
            final(out).deep_view() == old(out).deep_view() + self.spec_field_pairs_b1(),
    {
        let ghost acc = out.deep_view();
        proof {
            assert(acc =~= old(out).deep_view() + Seq::<(Seq<char>, ValueView)>::empty());
        }
        push_text_field(out, "email", &self.email);
        proof {
            assert(out.deep_view() =~~= acc + value_pairs("email"@, text_opt(self.email.deep_view())));
        }
        let ghost acc = out.deep_view();
        push_flag_field(out, "email_verified", &self.email_verified);
        proof {
            assert(out.deep_view() =~~= acc + value_pairs("email_verified"@, flag_opt(self.email_verified.deep_view())));
        }
        let ghost acc = out.deep_view();
        match &self.gender {
            None => {
                proof {
                    assert(acc + value_pairs("gender"@, None::<ValueView>) =~= acc);
                }
            },
            Some(g) => {
                let gv = g.encode_value();
                push_pair(out, "gender", gv);
            },
        }
        proof {
            assert(out.deep_view() =~~= acc + value_pairs("gender"@, match self.gender {
                None => None,
                Some(g) => Some(g.spec_encode()),
            }));
        }
        let ghost acc = out.deep_view();
        push_text_field(out, "birthday", &self.birthday);
        proof {
            assert(out.deep_view() =~~= acc + value_pairs("birthday"@, text_opt(self.birthday.deep_view())));
        }
        let ghost acc = out.deep_view();
        push_text_field(out, "zoneinfo", &self.zoneinfo);
        proof {
            assert(out.deep_view() =~~= acc + value_pairs("zoneinfo"@, text_opt(self.zoneinfo.deep_view())));
        }
        let ghost acc = out.deep_view();
        proof {
            assert(out.deep_view() =~~= old(out).deep_view() + self.spec_field_pairs_b1());
        }
    }

    /// Append the locale, phone, address and update-timestamp pairs.
    #[verifier::rlimit(100)]
    fn push_fields_b2(&self, out: &mut Vec<(String, ClaimValue)>)
        ensures
            final(out).deep_view() == old(out).deep_view() + self.spec_field_pairs_b2(),
    {
        let ghost acc = out.deep_view();
        proof {
            assert(acc =~= old(out).deep_view() + Seq::<(Seq<char>, ValueView)>::empty());
        }
        push_text_field(out, "locale", &self.locale);
        proof {
            assert(out.deep_view() =~~= acc + value_pairs("locale"@, text_opt(self.locale.deep_view())));
        }
        let ghost acc = out.deep_view();
        push_text_field(out, "phone_number", &self.phone_number);
        proof {
            assert(out.deep_view() =~~= acc + value_pairs("phone_number"@, text_opt(self.phone_number.deep_view())));
        }
        let ghost acc = out.deep_view();
        push_flag_field(out, "phone_number_verified", &self.phone_number_verified);
        proof {
            assert(out.deep_view() =~~= acc + value_pairs("phone_number_verified"@, flag_opt(self.phone_number_verified.deep_view())));
        }
        let ghost acc = out.deep_view();
        match &self.address {
            None => {
                proof {
                    assert(acc + value_pairs("address"@, None::<ValueView>) =~= acc);
                }
            },
            Some(a) => {
                let obj = a.encode_object();
                proof {
                    assert(ClaimValue::Object(obj)@ =~~= ValueView::Object(spec_encode_address(a@)));
                }
                push_pair(out, "address", ClaimValue::Object(obj));
            },
        }
        proof {
            assert(out.deep_view() =~~= acc + value_pairs("address"@, match self.address {
                None => None,
                Some(a) => Some(ValueView::Object(spec_encode_address(a@))),
            }));
        }
        let ghost acc = out.deep_view();
        match &self.updated_at {
            None => {
                proof {
                    assert(acc + value_pairs("updated_at"@, None::<ValueView>) =~= acc);
                }
            },
            Some(t) => {
                push_pair(out, "updated_at", ClaimValue::Integer(*t));
            },
        }
        proof {
            assert(out.deep_view() =~~= acc + value_pairs("updated_at"@, match self.updated_at {
                None => None,
                Some(t) => Some(ValueView::Integer(t as int)),
            }));
        }
        proof {
            assert(out.deep_view() =~~= old(out).deep_view() + self.spec_field_pairs_b2());
        }
    }

    /// Append the second half of the field table's pairs.
    fn push_fields_b(&self, out: &mut Vec<(String, ClaimValue)>)
        ensures
            final(out).deep_view() == old(out).deep_view() + self.spec_field_pairs_b(),
    {
        let ghost pre = out.deep_view();
        self.push_fields_b1(out);
        self.push_fields_b2(out);
        proof {
            assert(out.deep_view() =~= pre + self.spec_field_pairs_b());
        }
    }

    /// Encode the claim set as one flat map, in the field table's fixed
    /// order. Absent fields contribute nothing; the subject is always
    /// emitted; a localized field contributes one pair per entry in
    /// insertion order; the additional-claims payload's pairs come last.
    /// Encoding fails only when that payload's own encoder fails, and with
    /// that encoder's error.
    #[verifier::rlimit(100)]
    pub fn encode(&self) -> (r: Result<Vec<(String, ClaimValue)>, ClaimError>)
        ensures
            r matches Ok(v) ==> v.deep_view() == self.spec_encoded_pairs(),
            r is Ok <==> self.spec_additional().encode_succeeds(),
    {
        let ext = match self.additional.encode_pairs() {
            Ok(v) => v,
            Err(e) => {
                return Err(e);
            },
        };
        let mut out: Vec<(String, ClaimValue)> = Vec::new();
        self.push_fields_a(&mut out);
        self.push_fields_b(&mut out);
        let ghost acc = out.deep_view();
        proof {
            assert(acc =~= self.spec_field_pairs_a() + self.spec_field_pairs_b());
        }
        let en = ext.len();
        let mut k: usize = 0;
        while k < en
            invariant
                k <= en,
                en == ext@.len(),
                ext.deep_view() == self.spec_additional().spec_pairs(),
                out.deep_view() =~= acc + ext.deep_view().take(k as int),
            decreases en - k,
        {
            let ghost ov = out.deep_view();
            out.push((ext[k].0.clone(), ext[k].1.clone()));
            proof {
                assert(out.deep_view() =~~= ov.push(ext.deep_view()[k as int]));
                assert(ext.deep_view().take(k as int + 1) =~= ext.deep_view().take(
                    k as int,
                ).push(ext.deep_view()[k as int]));
                assert(out.deep_view() =~~= acc + ext.deep_view().take(k as int + 1));
            }
            k = k + 1;
        }
        proof {
            assert(ext.deep_view().take(en as int) =~= ext.deep_view());
            assert(out.deep_view() =~~= self.spec_encoded_pairs());
        }
        Ok(out)
    }
}

/// Append one `(base, value)` pair.
fn push_pair(out: &mut Vec<(String, ClaimValue)>, base: &str, v: ClaimValue)
    ensures
        final(out).deep_view() == old(out).deep_view() + seq![(base@, v@)],
{
    let ghost pre = out.deep_view();
    let ghost vv = v@;
    out.push((String::from_str(base), v));
    proof {
        assert(out.deep_view() =~~= pre + seq![(base@, vv)]);
    }
}

/// Append the pair of one optional plain text field, if present.
fn push_text_field(out: &mut Vec<(String, ClaimValue)>, base: &str, f: &Option<String>)
    ensures
        final(out).deep_view() == old(out).deep_view() + value_pairs(
            base@,
            text_opt(f.deep_view()),
        ),
{
    let ghost pre = out.deep_view();
    match f {
        None => {
            proof {
                assert(pre + value_pairs(base@, text_opt(f.deep_view())) =~= pre);
            }
        },
        Some(v) => {
            push_pair(out, base, ClaimValue::Text(v.clone()));
            proof {
                assert(pre + seq![(base@, ClaimValue::Text(*v)@)] =~= pre + value_pairs(
                    base@,
                    text_opt(f.deep_view()),
                ));
            }
        },
    }
}

/// Append the pair of one optional boolean field, if present.
fn push_flag_field(out: &mut Vec<(String, ClaimValue)>, base: &str, f: &Option<bool>)
    ensures
        final(out).deep_view() == old(out).deep_view() + value_pairs(
            base@,
            flag_opt(f.deep_view()),
        ),
{
    let ghost pre = out.deep_view();
    match f {
        None => {
            proof {
                assert(pre + value_pairs(base@, flag_opt(f.deep_view())) =~= pre);
            }
        },
        Some(v) => {
            push_pair(out, base, ClaimValue::Flag(*v));
            proof {
                assert(pre + seq![(base@, ClaimValue::Flag(*v)@)] =~= pre + value_pairs(
                    base@,
                    flag_opt(f.deep_view()),
                ));
            }
        },
    }
}

/// Append one localized field's wire pairs: one pair per entry, keys
/// assembled from the base name and each entry's tag, in insertion order.
fn push_localized(out: &mut Vec<(String, ClaimValue)>, base: &str, f: &Option<LocalizedClaim>)
    ensures
        final(out).deep_view() == old(out).deep_view() + localized_pairs(base@, loc_entries(*f)),
{
    let ghost pre = out.deep_view();
    match f {
        None => {
            proof {
                assert(pre + localized_pairs(base@, loc_entries(*f)) =~= pre);
            }
        },
        Some(c) => {
            let n = c.len();
            let mut j: usize = 0;
            while j < n
                invariant
                    j <= n,
                    n == c@.len(),
                    out.deep_view() =~= pre + localized_pairs(base@, c@.take(j as int)),
                decreases n - j,
            {
                let e = c.entry(j);
                let key = assemble_key(base, &e.0);
                let ghost ov = out.deep_view();
                out.push((key, ClaimValue::Text(e.1.clone())));
                proof {
                    assert(e.deep_view() == c@[j as int]);
                    assert(out.deep_view() =~~= ov.push((
                        spec_encode_key(base@, c@[j as int].0),
                        ValueView::Text(c@[j as int].1),
                    )));
                    assert(localized_pairs(base@, c@.take(j as int + 1)) =~= localized_pairs(
                        base@,
                        c@.take(j as int),
                    ).push((spec_encode_key(base@, c@[j as int].0), ValueView::Text(c@[j as int].1))));
                    assert(out.deep_view() =~~= pre + localized_pairs(base@, c@.take(j as int + 1)));
                }
                j = j + 1;
            }
            proof {
                assert(c@.take(n as int) =~= c@);
            }
        },
    }
}


impl<GC: GenderClaim, AC: AdditionalClaims> StandardClaims<GC, AC> {
    /// The decode state after the first half of an encoded claim set's
    /// pairs.
    closed spec fn rt_state_a(&self) -> DecodeState<<GC as View>::V> {
        DecodeState {
            sub: Some(self.sub@),
            name: loc_map(self.name),
            given_name: loc_map(self.given_name),
            family_name: loc_map(self.family_name),
            middle_name: loc_map(self.middle_name),
            nickname: loc_map(self.nickname),
            preferred_username: self.preferred_username.deep_view(),
            profile: loc_map(self.profile),
            picture: loc_map(self.picture),
            website: loc_map(self.website),
            ..empty_state()
        }
    }

    /// The decode state after both halves of an encoded claim set's pairs.
    closed spec fn rt_state_b(&self) -> DecodeState<<GC as View>::V> {
        DecodeState {
            email: self.email.deep_view(),
            email_verified: self.email_verified.deep_view(),
            gender: match self.gender {
                None => None,
                Some(g) => Some(g@),
            },
            birthday: self.birthday.deep_view(),
            zoneinfo: self.zoneinfo.deep_view(),
            locale: self.locale.deep_view(),
            phone_number: self.phone_number.deep_view(),
            phone_number_verified: self.phone_number_verified.deep_view(),
            address: match self.address {
                None => None,
                Some(a) => Some(a@),
            },
            updated_at: match self.updated_at {
                None => None,
                Some(t) => Some(t as int),
            },
            ..self.rt_state_a()
        }
    }
}

/// Folding the first half of a well-formed claim set's pairs fills exactly
/// the subject, name and profile slots.
#[verifier::rlimit(100)]
proof fn lemma_rt_a<GC: GenderClaim, AC: AdditionalClaims>(c: StandardClaims<GC, AC>)
    requires
        c.wf(),
    ensures
        decode_fold::<GC>(c.spec_field_pairs_a(), Ok(empty_state())) == Ok::<
            DecodeState<<GC as View>::V>,
            DecodeFailure,
        >(c.rt_state_a()),
{
    lemma_known_field_names();
    let t0 = empty_state::<<GC as View>::V>();
    let t1 = DecodeState { sub: Some(c.sub@), ..t0 };
    let t2 = DecodeState { name: loc_map(c.name), ..t1 };
    let t3 = DecodeState { given_name: loc_map(c.given_name), ..t2 };
    let t4 = DecodeState { family_name: loc_map(c.family_name), ..t3 };
    let t5 = DecodeState { middle_name: loc_map(c.middle_name), ..t4 };
    let t6 = DecodeState { nickname: loc_map(c.nickname), ..t5 };
    let t7 = DecodeState { preferred_username: c.preferred_username.deep_view(), ..t6 };
    let t8 = DecodeState { profile: loc_map(c.profile), ..t7 };
    let t9 = DecodeState { picture: loc_map(c.picture), ..t8 };
    let t10 = DecodeState { website: loc_map(c.website), ..t9 };
    let s_sub = seq![("sub"@, ValueView::Text(c.sub@))];
    assert(decode_fold::<GC>(s_sub, Ok(t0)) == Ok::<DecodeState<<GC as View>::V>, DecodeFailure>(
        t1,
    )) by {
        crate::codec::lemma_fold_one::<GC>(("sub"@, ValueView::Text(c.sub@)), t0);
        lemma_split_encode_key("sub"@, None);
    }
        assert(decode_fold::<GC>(localized_pairs("name"@, loc_entries(c.name)), Ok(t1)) == Ok::<
            DecodeState<<GC as View>::V>,
            DecodeFailure,
        >(t2)) by {
            assert(state_loc(t1, "name"@) == Map::<Option<Seq<char>>, Seq<char>>::empty());
            assert forall|i: int|
                0 <= i < loc_entries(c.name).len() implies !state_loc(t1, "name"@).contains_key(
                #[trigger] loc_entries(c.name)[i].0,
            ) by {}
            lemma_fold_localized::<GC>("name"@, loc_entries(c.name), t1);
            lemma_insert_seq_empty(loc_entries(c.name));
            assert(state_with_loc(t1, "name"@, insert_seq(
                Map::empty(),
                loc_entries(c.name),
            )) =~= t2);
        }
        assert(decode_fold::<GC>(localized_pairs("given_name"@, loc_entries(c.given_name)), Ok(t2)) == Ok::<
            DecodeState<<GC as View>::V>,
            DecodeFailure,
        >(t3)) by {
            assert(state_loc(t2, "given_name"@) == Map::<Option<Seq<char>>, Seq<char>>::empty());
            assert forall|i: int|
                0 <= i < loc_entries(c.given_name).len() implies !state_loc(t2, "given_name"@).contains_key(
                #[trigger] loc_entries(c.given_name)[i].0,
            ) by {}
            lemma_fold_localized::<GC>("given_name"@, loc_entries(c.given_name), t2);
            lemma_insert_seq_empty(loc_entries(c.given_name));
            assert(state_with_loc(t2, "given_name"@, insert_seq(
                Map::empty(),
                loc_entries(c.given_name),
            )) =~= t3);
        }
        assert(decode_fold::<GC>(localized_pairs("family_name"@, loc_entries(c.family_name)), Ok(t3)) == Ok::<
            DecodeState<<GC as View>::V>,
            DecodeFailure,
        >(t4)) by {
            assert(state_loc(t3, "family_name"@) == Map::<Option<Seq<char>>, Seq<char>>::empty());
            assert forall|i: int|
                0 <= i < loc_entries(c.family_name).len() implies !state_loc(t3, "family_name"@).contains_key(
                #[trigger] loc_entries(c.family_name)[i].0,
            ) by {}
            lemma_fold_localized::<GC>("family_name"@, loc_entries(c.family_name), t3);
            lemma_insert_seq_empty(loc_entries(c.family_name));
            assert(state_with_loc(t3, "family_name"@, insert_seq(
                Map::empty(),
                loc_entries(c.family_name),
            )) =~= t4);
        }
        assert(decode_fold::<GC>(localized_pairs("middle_name"@, loc_entries(c.middle_name)), Ok(t4)) == Ok::<
            DecodeState<<GC as View>::V>,
            DecodeFailure,
        >(t5)) by {
            assert(state_loc(t4, "middle_name"@) == Map::<Option<Seq<char>>, Seq<char>>::empty());
            assert forall|i: int|
                0 <= i < loc_entries(c.middle_name).len() implies !state_loc(t4, "middle_name"@).contains_key(
                #[trigger] loc_entries(c.middle_name)[i].0,
            ) by {}
            lemma_fold_localized::<GC>("middle_name"@, loc_entries(c.middle_name), t4);
            lemma_insert_seq_empty(loc_entries(c.middle_name));
            assert(state_with_loc(t4, "middle_name"@, insert_seq(
                Map::empty(),
                loc_entries(c.middle_name),
            )) =~= t5);
        }
        assert(decode_fold::<GC>(localized_pairs("nickname"@, loc_entries(c.nickname)), Ok(t5)) == Ok::<
            DecodeState<<GC as View>::V>,
            DecodeFailure,
        >(t6)) by {
            assert(state_loc(t5, "nickname"@) == Map::<Option<Seq<char>>, Seq<char>>::empty());
            assert forall|i: int|
                0 <= i < loc_entries(c.nickname).len() implies !state_loc(t5, "nickname"@).contains_key(
                #[trigger] loc_entries(c.nickname)[i].0,
            ) by {}
            lemma_fold_localized::<GC>("nickname"@, loc_entries(c.nickname), t5);
            lemma_insert_seq_empty(loc_entries(c.nickname));
            assert(state_with_loc(t5, "nickname"@, insert_seq(
                Map::empty(),
                loc_entries(c.nickname),
            )) =~= t6);
        }

        assert(decode_fold::<GC>(value_pairs("preferred_username"@, text_opt(c.preferred_username.deep_view())), Ok(t6))
            == Ok::<DecodeState<<GC as View>::V>, DecodeFailure>(t7)) by {
            lemma_fold_value_pairs::<GC>("preferred_username"@, text_opt(c.preferred_username.deep_view()), t6);
            lemma_split_encode_key("preferred_username"@, None);
            match c.preferred_username {
                None => {
                    assert(t7 =~= t6);
                },
                Some(v) => {
                    assert(decode_step::<GC>(t6, "preferred_username"@, ValueView::Text(v@)) == Ok::<
                        DecodeState<<GC as View>::V>,
                        DecodeFailure,
                    >(t7));
                },
            }
        }

        assert(decode_fold::<GC>(localized_pairs("profile"@, loc_entries(c.profile)), Ok(t7)) == Ok::<
            DecodeState<<GC as View>::V>,
            DecodeFailure,
        >(t8)) by {
            assert(state_loc(t7, "profile"@) == Map::<Option<Seq<char>>, Seq<char>>::empty());
            assert forall|i: int|
                0 <= i < loc_entries(c.profile).len() implies !state_loc(t7, "profile"@).contains_key(
                #[trigger] loc_entries(c.profile)[i].0,
            ) by {}
            lemma_fold_localized::<GC>("profile"@, loc_entries(c.profile), t7);
            lemma_insert_seq_empty(loc_entries(c.profile));
            assert(state_with_loc(t7, "profile"@, insert_seq(
                Map::empty(),
                loc_entries(c.profile),
            )) =~= t8);
        }
        assert(decode_fold::<GC>(localized_pairs("picture"@, loc_entries(c.picture)), Ok(t8)) == Ok::<
            DecodeState<<GC as View>::V>,
            DecodeFailure,
        >(t9)) by {
            assert(state_loc(t8, "picture"@) == Map::<Option<Seq<char>>, Seq<char>>::empty());
            assert forall|i: int|
                0 <= i < loc_entries(c.picture).len() implies !state_loc(t8, "picture"@).contains_key(
                #[trigger] loc_entries(c.picture)[i].0,
            ) by {}
            lemma_fold_localized::<GC>("picture"@, loc_entries(c.picture), t8);
            lemma_insert_seq_empty(loc_entries(c.picture));
            assert(state_with_loc(t8, "picture"@, insert_seq(
                Map::empty(),
                loc_entries(c.picture),
            )) =~= t9);
        }
        assert(decode_fold::<GC>(localized_pairs("website"@, loc_entries(c.website)), Ok(t9)) == Ok::<
            DecodeState<<GC as View>::V>,
            DecodeFailure,
        >(t10)) by {
            assert(state_loc(t9, "website"@) == Map::<Option<Seq<char>>, Seq<char>>::empty());
            assert forall|i: int|
                0 <= i < loc_entries(c.website).len() implies !state_loc(t9, "website"@).contains_key(
                #[trigger] loc_entries(c.website)[i].0,
            ) by {}
            lemma_fold_localized::<GC>("website"@, loc_entries(c.website), t9);
            lemma_insert_seq_empty(loc_entries(c.website));
            assert(state_with_loc(t9, "website"@, insert_seq(
                Map::empty(),
                loc_entries(c.website),
            )) =~= t10);
        }

    let a2 = s_sub + localized_pairs("name"@, loc_entries(c.name));
    lemma_decode_fold_append::<GC>(s_sub, localized_pairs("name"@, loc_entries(c.name)), Ok(t0));
    let a3 = a2 + localized_pairs("given_name"@, loc_entries(c.given_name));
    lemma_decode_fold_append::<GC>(
        a2,
        localized_pairs("given_name"@, loc_entries(c.given_name)),
        Ok(t0),
    );
    let a4 = a3 + localized_pairs("family_name"@, loc_entries(c.family_name));
    lemma_decode_fold_append::<GC>(
        a3,
        localized_pairs("family_name"@, loc_entries(c.family_name)),
        Ok(t0),
    );
    let a5 = a4 + localized_pairs("middle_name"@, loc_entries(c.middle_name));
    lemma_decode_fold_append::<GC>(
        a4,
        localized_pairs("middle_name"@, loc_entries(c.middle_name)),
        Ok(t0),
    );
    let a6 = a5 + localized_pairs("nickname"@, loc_entries(c.nickname));
    lemma_decode_fold_append::<GC>(
        a5,
        localized_pairs("nickname"@, loc_entries(c.nickname)),
        Ok(t0),
    );
    let a7 = a6 + value_pairs("preferred_username"@, text_opt(c.preferred_username.deep_view()));
    lemma_decode_fold_append::<GC>(
        a6,
        value_pairs("preferred_username"@, text_opt(c.preferred_username.deep_view())),
        Ok(t0),
    );
    let a8 = a7 + localized_pairs("profile"@, loc_entries(c.profile));
    lemma_decode_fold_append::<GC>(a7, localized_pairs("profile"@, loc_entries(c.profile)), Ok(t0));
    let a9 = a8 + localized_pairs("picture"@, loc_entries(c.picture));
    lemma_decode_fold_append::<GC>(a8, localized_pairs("picture"@, loc_entries(c.picture)), Ok(t0));
    let a10 = a9 + localized_pairs("website"@, loc_entries(c.website));
    lemma_decode_fold_append::<GC>(a9, localized_pairs("website"@, loc_entries(c.website)), Ok(t0));
    assert(c.spec_field_pairs_a() == a10);
    assert(c.rt_state_a() =~= t10);
}


/// Folding the second half of a well-formed claim set's pairs fills exactly
/// the contact, gender, address and timestamp slots.
#[verifier::rlimit(100)]
proof fn lemma_rt_b<GC: GenderClaim, AC: AdditionalClaims>(c: StandardClaims<GC, AC>)
    requires
        c.wf(),
    ensures
        decode_fold::<GC>(c.spec_field_pairs_b(), Ok(c.rt_state_a())) == Ok::<
            DecodeState<<GC as View>::V>,
            DecodeFailure,
        >(c.rt_state_b()),
{
    lemma_known_field_names();
    let t0 = c.rt_state_a();
    let t1 = DecodeState { email: c.email.deep_view(), ..t0 };
    let t2 = DecodeState { email_verified: c.email_verified.deep_view(), ..t1 };
    let t3 = DecodeState {
        gender: match c.gender {
            None => None,
            Some(g) => Some(g@),
        },
        ..t2
    };
    let t4 = DecodeState { birthday: c.birthday.deep_view(), ..t3 };
    let t5 = DecodeState { zoneinfo: c.zoneinfo.deep_view(), ..t4 };
    let t6 = DecodeState { locale: c.locale.deep_view(), ..t5 };
    let t7 = DecodeState { phone_number: c.phone_number.deep_view(), ..t6 };
    let t8 = DecodeState { phone_number_verified: c.phone_number_verified.deep_view(), ..t7 };
    let t9 = DecodeState {
        address: match c.address {
            None => None,
            Some(a) => Some(a@),
        },
        ..t8
    };
    let t10 = DecodeState {
        updated_at: match c.updated_at {
            None => None,
            Some(t) => Some(t as int),
        },
        ..t9
    };
    assert(decode_fold::<GC>(value_pairs("email"@, text_opt(c.email.deep_view())), Ok(t0))
        == Ok::<DecodeState<<GC as View>::V>, DecodeFailure>(t1)) by {
        lemma_fold_value_pairs::<GC>("email"@, text_opt(c.email.deep_view()), t0);
        lemma_split_encode_key("email"@, None);
        match c.email {
            None => {
                assert(t1 =~= t0);
            },
            Some(v) => {
                assert(decode_step::<GC>(t0, "email"@, ValueView::Text(v@)) == Ok::<
                    DecodeState<<GC as View>::V>,
                    DecodeFailure,
                >(t1));
            },
        }
    }

    assert(decode_fold::<GC>(value_pairs("email_verified"@, flag_opt(c.email_verified.deep_view())), Ok(t1))
        == Ok::<DecodeState<<GC as View>::V>, DecodeFailure>(t2)) by {
        lemma_fold_value_pairs::<GC>("email_verified"@, flag_opt(c.email_verified.deep_view()), t1);
        lemma_split_encode_key("email_verified"@, None);
        match c.email_verified {
            None => {
                assert(t2 =~= t1);
            },
            Some(v) => {
                assert(decode_step::<GC>(t1, "email_verified"@, ValueView::Flag(v@)) == Ok::<
                    DecodeState<<GC as View>::V>,
                    DecodeFailure,
                >(t2));
            },
        }
    }

    let g_pairs = value_pairs("gender"@, (match c.gender {
        None => None,
        Some(g) => Some(g.spec_encode()),
    }));
    assert(decode_fold::<GC>(g_pairs, Ok(t2)) == Ok::<DecodeState<<GC as View>::V>, DecodeFailure>(
        t3,
    )) by {
        lemma_fold_value_pairs::<GC>(
            "gender"@,
            (match c.gender {
                None => None,
                Some(g) => Some(g.spec_encode()),
            }),
            t2,
        );
        lemma_split_encode_key("gender"@, None);
        match c.gender {
            None => {
                assert(t3 =~= t2);
            },
            Some(g) => {
                g.lemma_round_trip();
                assert(decode_step::<GC>(t2, "gender"@, g.spec_encode()) == Ok::<
                    DecodeState<<GC as View>::V>,
                    DecodeFailure,
                >(t3));
            },
        }
    }
    assert(decode_fold::<GC>(value_pairs("birthday"@, text_opt(c.birthday.deep_view())), Ok(t3))
        == Ok::<DecodeState<<GC as View>::V>, DecodeFailure>(t4)) by {
        lemma_fold_value_pairs::<GC>("birthday"@, text_opt(c.birthday.deep_view()), t3);
        lemma_split_encode_key("birthday"@, None);
        match c.birthday {
            None => {
                assert(t4 =~= t3);
            },
            Some(v) => {
                assert(decode_step::<GC>(t3, "birthday"@, ValueView::Text(v@)) == Ok::<
                    DecodeState<<GC as View>::V>,
                    DecodeFailure,
                >(t4));
            },
        }
    }

    assert(decode_fold::<GC>(value_pairs("zoneinfo"@, text_opt(c.zoneinfo.deep_view())), Ok(t4))
        == Ok::<DecodeState<<GC as View>::V>, DecodeFailure>(t5)) by {
        lemma_fold_value_pairs::<GC>("zoneinfo"@, text_opt(c.zoneinfo.deep_view()), t4);
        lemma_split_encode_key("zoneinfo"@, None);
        match c.zoneinfo {
            None => {
                assert(t5 =~= t4);
            },
            Some(v) => {
                assert(decode_step::<GC>(t4, "zoneinfo"@, ValueView::Text(v@)) == Ok::<
                    DecodeState<<GC as View>::V>,
                    DecodeFailure,
                >(t5));
            },
        }
    }

    assert(decode_fold::<GC>(value_pairs("locale"@, text_opt(c.locale.deep_view())), Ok(t5))
        == Ok::<DecodeState<<GC as View>::V>, DecodeFailure>(t6)) by {
        lemma_fold_value_pairs::<GC>("locale"@, text_opt(c.locale.deep_view()), t5);
        lemma_split_encode_key("locale"@, None);
        match c.locale {
            None => {
                assert(t6 =~= t5);
            },
            Some(v) => {
                assert(decode_step::<GC>(t5, "locale"@, ValueView::Text(v@)) == Ok::<
                    DecodeState<<GC as View>::V>,
                    DecodeFailure,
                >(t6));
            },
        }
    }

    assert(decode_fold::<GC>(value_pairs("phone_number"@, text_opt(c.phone_number.deep_view())), Ok(t6))
        == Ok::<DecodeState<<GC as View>::V>, DecodeFailure>(t7)) by {
        lemma_fold_value_pairs::<GC>("phone_number"@, text_opt(c.phone_number.deep_view()), t6);
        lemma_split_encode_key("phone_number"@, None);
        match c.phone_number {
            None => {
                assert(t7 =~= t6);
            },
            Some(v) => {
                assert(decode_step::<GC>(t6, "phone_number"@, ValueView::Text(v@)) == Ok::<
                    DecodeState<<GC as View>::V>,
                    DecodeFailure,
                >(t7));
            },
        }
    }

    assert(decode_fold::<GC>(value_pairs("phone_number_verified"@, flag_opt(c.phone_number_verified.deep_view())), Ok(t7))
        == Ok::<DecodeState<<GC as View>::V>, DecodeFailure>(t8)) by {
        lemma_fold_value_pairs::<GC>("phone_number_verified"@, flag_opt(c.phone_number_verified.deep_view()), t7);
        lemma_split_encode_key("phone_number_verified"@, None);
        match c.phone_number_verified {
            None => {
                assert(t8 =~= t7);
            },
            Some(v) => {
                assert(decode_step::<GC>(t7, "phone_number_verified"@, ValueView::Flag(v)) == Ok::<
                    DecodeState<<GC as View>::V>,
                    DecodeFailure,
                >(t8));
            },
        }
    }
    let ad_pairs = value_pairs("address"@, (match c.address {
        None => None,
        Some(a) => Some(ValueView::Object(spec_encode_address(a@))),
    }));
    assert(decode_fold::<GC>(ad_pairs, Ok(t8)) == Ok::<
        DecodeState<<GC as View>::V>,
        DecodeFailure,
    >(t9)) by {
        lemma_fold_value_pairs::<GC>(
            "address"@,
            (match c.address {
                None => None,
                Some(a) => Some(ValueView::Object(spec_encode_address(a@))),
            }),
            t8,
        );
        lemma_split_encode_key("address"@, None);
        match c.address {
            None => {
                assert(t9 =~= t8);
            },
            Some(a) => {
                lemma_address_round_trip(a@);
                assert(decode_step::<GC>(t8, "address"@, ValueView::Object(spec_encode_address(a@)))
                    == Ok::<DecodeState<<GC as View>::V>, DecodeFailure>(t9));
            },
        }
    }
    let ua_pairs = value_pairs("updated_at"@, (match c.updated_at {
        None => None,
        Some(t) => Some(ValueView::Integer(t as int)),
    }));
    assert(decode_fold::<GC>(ua_pairs, Ok(t9)) == Ok::<
        DecodeState<<GC as View>::V>,
        DecodeFailure,
    >(t10)) by {
        lemma_fold_value_pairs::<GC>(
            "updated_at"@,
            (match c.updated_at {
                None => None,
                Some(t) => Some(ValueView::Integer(t as int)),
            }),
            t9,
        );
        lemma_split_encode_key("updated_at"@, None);
        match c.updated_at {
            None => {
                assert(t10 =~= t9);
            },
            Some(t) => {
                assert(decode_step::<GC>(t9, "updated_at"@, ValueView::Integer(t as int)) == Ok::<
                    DecodeState<<GC as View>::V>,
                    DecodeFailure,
                >(t10));
            },
        }
    }
    let s_em = value_pairs("email"@, text_opt(c.email.deep_view()));
    let s_ev = value_pairs("email_verified"@, flag_opt(c.email_verified.deep_view()));
    let s_bd = value_pairs("birthday"@, text_opt(c.birthday.deep_view()));
    let s_zi = value_pairs("zoneinfo"@, text_opt(c.zoneinfo.deep_view()));
    let s_lo = value_pairs("locale"@, text_opt(c.locale.deep_view()));
    let s_pn = value_pairs("phone_number"@, text_opt(c.phone_number.deep_view()));
    let s_pnv = value_pairs("phone_number_verified"@, flag_opt(c.phone_number_verified.deep_view()));
    let b2 = s_em + s_ev;
    lemma_decode_fold_append::<GC>(s_em, s_ev, Ok(t0));
    let b3 = b2 + g_pairs;
    lemma_decode_fold_append::<GC>(b2, g_pairs, Ok(t0));
    let b4 = b3 + s_bd;
    lemma_decode_fold_append::<GC>(b3, s_bd, Ok(t0));
    let b5 = b4 + s_zi;
    lemma_decode_fold_append::<GC>(b4, s_zi, Ok(t0));
    assert(c.spec_field_pairs_b1() == b5);
    assert(decode_fold::<GC>(c.spec_field_pairs_b1(), Ok(t0)) == Ok::<
        DecodeState<<GC as View>::V>,
        DecodeFailure,
    >(t5));
    let c2 = s_lo + s_pn;
    lemma_decode_fold_append::<GC>(s_lo, s_pn, Ok(t5));
    let c3 = c2 + s_pnv;
    lemma_decode_fold_append::<GC>(c2, s_pnv, Ok(t5));
    let c4 = c3 + ad_pairs;
    lemma_decode_fold_append::<GC>(c3, ad_pairs, Ok(t5));
    let c5 = c4 + ua_pairs;
    lemma_decode_fold_append::<GC>(c4, ua_pairs, Ok(t5));
    assert(c.spec_field_pairs_b2() == c5);
    assert(decode_fold::<GC>(c.spec_field_pairs_b2(), Ok(t5)) == Ok::<
        DecodeState<<GC as View>::V>,
        DecodeFailure,
    >(t10));
    lemma_decode_fold_append::<GC>(c.spec_field_pairs_b1(), c.spec_field_pairs_b2(), Ok(t0));
    assert(c.rt_state_b() =~= t10);
}

/// Round trip: decoding what a well-formed claim set encodes to yields a
/// claim set with the same view — the same subject, the same entries of
/// every localized field whatever their order, the same scalar fields, the
/// same gender and additional-claims payloads.
///
/// The additional-claims payload must encode successfully and its keys must
/// be ones the field table does not know: a payload key that collides with
/// a known field name would be routed to that field on decode, which this
/// codec leaves to the caller to rule out.
pub proof fn lemma_claims_round_trip<GC: GenderClaim, AC: AdditionalClaims>(
    c: StandardClaims<GC, AC>,
)
    requires
        c.wf(),
        c.spec_additional().encode_succeeds(),
        forall|i: int|
            0 <= i < c.spec_additional().spec_pairs().len() ==> !is_known_field(
                spec_split_key(#[trigger] c.spec_additional().spec_pairs()[i].0).0,
            ),
    ensures
        spec_decode_claims::<GC, AC>(c.spec_encoded_pairs()) == Ok::<
            ClaimsView<<GC as View>::V, <AC as View>::V>,
            DecodeFailure,
        >(c@),
{
    lemma_rt_a::<GC, AC>(c);
    lemma_rt_b::<GC, AC>(c);
    let ab = c.spec_field_pairs_a() + c.spec_field_pairs_b();
    lemma_decode_fold_append::<GC>(
        c.spec_field_pairs_a(),
        c.spec_field_pairs_b(),
        Ok(empty_state()),
    );
    let ext = c.additional.spec_pairs();
    lemma_decode_fold_append::<GC>(ab, ext, Ok(empty_state()));
    lemma_fold_unknown::<GC>(ext, c.rt_state_b());
    let tf = DecodeState { extra: c.rt_state_b().extra + ext, ..c.rt_state_b() };
    assert(decode_fold::<GC>(c.spec_encoded_pairs(), Ok(empty_state())) == Ok::<
        DecodeState<<GC as View>::V>,
        DecodeFailure,
    >(tf));
    assert(tf.extra =~= ext);
    c.additional.lemma_round_trip();
    assert(AC::spec_decode(tf.extra) == Some(c.additional@));
    assert(tf.sub == Some(c.sub@));
    assert(state_to_view::<GC, AC>(tf, c.sub@, c.additional@) =~= c@);
}


impl<GC: GenderClaim, AC: AdditionalClaims> StandardClaims<GC, AC> {
    /// The name field's localized values, if any were set.
    pub fn name(&self) -> (r: &Option<LocalizedClaim>)
        ensures
            loc_map(*r) == self@.name,
    {
        &self.name
    }

    /// Replace the name field's localized values.
    pub fn set_name(self, name: Option<LocalizedClaim>) -> (r: Self)
        ensures
            r@ == (ClaimsView { name: loc_map(name), ..self@ }),
            self.wf() && (match name {
                None => true,
                Some(c) => c.wf(),
            }) ==> r.wf(),
    {
        let mut s = self;
        s.name = name;
        proof {
            assert(s@ =~= (ClaimsView { name: loc_map(s.name), ..self@ }));
        }
        s
    }

    /// The given_name field's localized values, if any were set.
    pub fn given_name(&self) -> (r: &Option<LocalizedClaim>)
        ensures
            loc_map(*r) == self@.given_name,
    {
        &self.given_name
    }

    /// Replace the given_name field's localized values.
    pub fn set_given_name(self, given_name: Option<LocalizedClaim>) -> (r: Self)
        ensures
            r@ == (ClaimsView { given_name: loc_map(given_name), ..self@ }),
            self.wf() && (match given_name {
                None => true,
                Some(c) => c.wf(),
            }) ==> r.wf(),
    {
        let mut s = self;
        s.given_name = given_name;
        proof {
            assert(s@ =~= (ClaimsView { given_name: loc_map(s.given_name), ..self@ }));
        }
        s
    }

    /// The family_name field's localized values, if any were set.
    pub fn family_name(&self) -> (r: &Option<LocalizedClaim>)
        ensures
            loc_map(*r) == self@.family_name,
    {
        &self.family_name
    }

    /// Replace the family_name field's localized values.
    pub fn set_family_name(self, family_name: Option<LocalizedClaim>) -> (r: Self)
        ensures
            r@ == (ClaimsView { family_name: loc_map(family_name), ..self@ }),
            self.wf() && (match family_name {
                None => true,
                Some(c) => c.wf(),
            }) ==> r.wf(),
    {
        let mut s = self;
        s.family_name = family_name;
        proof {
            assert(s@ =~= (ClaimsView { family_name: loc_map(s.family_name), ..self@ }));
        }
        s
    }

    /// The middle_name field's localized values, if any were set.
    pub fn middle_name(&self) -> (r: &Option<LocalizedClaim>)
        ensures
            loc_map(*r) == self@.middle_name,
    {
        &self.middle_name
    }

    /// Replace the middle_name field's localized values.
    pub fn set_middle_name(self, middle_name: Option<LocalizedClaim>) -> (r: Self)
        ensures
            r@ == (ClaimsView { middle_name: loc_map(middle_name), ..self@ }),
            self.wf() && (match middle_name {
                None => true,
                Some(c) => c.wf(),
            }) ==> r.wf(),
    {
        let mut s = self;
        s.middle_name = middle_name;
        proof {
            assert(s@ =~= (ClaimsView { middle_name: loc_map(s.middle_name), ..self@ }));
        }
        s
    }

    /// The nickname field's localized values, if any were set.
    pub fn nickname(&self) -> (r: &Option<LocalizedClaim>)
        ensures
            loc_map(*r) == self@.nickname,
    {
        &self.nickname
    }

    /// Replace the nickname field's localized values.
    pub fn set_nickname(self, nickname: Option<LocalizedClaim>) -> (r: Self)
        ensures
            r@ == (ClaimsView { nickname: loc_map(nickname), ..self@ }),
            self.wf() && (match nickname {
                None => true,
                Some(c) => c.wf(),
            }) ==> r.wf(),
    {
        let mut s = self;
        s.nickname = nickname;
        proof {
            assert(s@ =~= (ClaimsView { nickname: loc_map(s.nickname), ..self@ }));
        }
        s
    }

    /// The profile field's localized values, if any were set.
    pub fn profile(&self) -> (r: &Option<LocalizedClaim>)
        ensures
            loc_map(*r) == self@.profile,
    {
        &self.profile
    }

    /// Replace the profile field's localized values.
    pub fn set_profile(self, profile: Option<LocalizedClaim>) -> (r: Self)
        ensures
            r@ == (ClaimsView { profile: loc_map(profile), ..self@ }),
            self.wf() && (match profile {
                None => true,
                Some(c) => c.wf(),
            }) ==> r.wf(),
    {
        let mut s = self;
        s.profile = profile;
        proof {
            assert(s@ =~= (ClaimsView { profile: loc_map(s.profile), ..self@ }));
        }
        s
    }

    /// The picture field's localized values, if any were set.
    pub fn picture(&self) -> (r: &Option<LocalizedClaim>)
        ensures
            loc_map(*r) == self@.picture,
    {
        &self.picture
    }

    /// Replace the picture field's localized values.
    pub fn set_picture(self, picture: Option<LocalizedClaim>) -> (r: Self)
        ensures
            r@ == (ClaimsView { picture: loc_map(picture), ..self@ }),
            self.wf() && (match picture {
                None => true,
                Some(c) => c.wf(),
            }) ==> r.wf(),
    {
        let mut s = self;
        s.picture = picture;
        proof {
            assert(s@ =~= (ClaimsView { picture: loc_map(s.picture), ..self@ }));
        }
        s
    }

    /// The website field's localized values, if any were set.
    pub fn website(&self) -> (r: &Option<LocalizedClaim>)
        ensures
            loc_map(*r) == self@.website,
    {
        &self.website
    }

    /// Replace the website field's localized values.
    pub fn set_website(self, website: Option<LocalizedClaim>) -> (r: Self)
        ensures
            r@ == (ClaimsView { website: loc_map(website), ..self@ }),
            self.wf() && (match website {
                None => true,
                Some(c) => c.wf(),
            }) ==> r.wf(),
    {
        let mut s = self;
        s.website = website;
        proof {
            assert(s@ =~= (ClaimsView { website: loc_map(s.website), ..self@ }));
        }
        s
    }

    /// The preferred_username field, if set.
    pub fn preferred_username(&self) -> (r: &Option<String>)
        ensures
            r.deep_view() == self@.preferred_username,
    {
        &self.preferred_username
    }

    /// Replace the preferred_username field.
    pub fn set_preferred_username(self, preferred_username: Option<String>) -> (r: Self)
        ensures
            r@ == (ClaimsView { preferred_username: preferred_username.deep_view(), ..self@ }),
            r.wf() == self.wf(),
    {
        let mut s = self;
        s.preferred_username = preferred_username;
        proof {
            assert(s@ =~= (ClaimsView { preferred_username: s.preferred_username.deep_view(), ..self@ }));
        }
        s
    }

    /// The email field, if set.
    pub fn email(&self) -> (r: &Option<String>)
        ensures
            r.deep_view() == self@.email,
    {
        &self.email
    }

    /// Replace the email field.
    pub fn set_email(self, email: Option<String>) -> (r: Self)
        ensures
            r@ == (ClaimsView { email: email.deep_view(), ..self@ }),
            r.wf() == self.wf(),
    {
        let mut s = self;
        s.email = email;
        proof {
            assert(s@ =~= (ClaimsView { email: s.email.deep_view(), ..self@ }));
        }
        s
    }

    /// The birthday field, if set.
    pub fn birthday(&self) -> (r: &Option<String>)
        ensures
            r.deep_view() == self@.birthday,
    {
        &self.birthday
    }

    /// Replace the birthday field.
    pub fn set_birthday(self, birthday: Option<String>) -> (r: Self)
        ensures
            r@ == (ClaimsView { birthday: birthday.deep_view(), ..self@ }),
            r.wf() == self.wf(),
    {
        let mut s = self;
        s.birthday = birthday;
        proof {
            assert(s@ =~= (ClaimsView { birthday: s.birthday.deep_view(), ..self@ }));
        }
        s
    }

    /// The zoneinfo field, if set.
    pub fn zoneinfo(&self) -> (r: &Option<String>)
        ensures
            r.deep_view() == self@.zoneinfo,
    {
        &self.zoneinfo
    }

    /// Replace the zoneinfo field.
    pub fn set_zoneinfo(self, zoneinfo: Option<String>) -> (r: Self)
        ensures
            r@ == (ClaimsView { zoneinfo: zoneinfo.deep_view(), ..self@ }),
            r.wf() == self.wf(),
    {
        let mut s = self;
        s.zoneinfo = zoneinfo;
        proof {
            assert(s@ =~= (ClaimsView { zoneinfo: s.zoneinfo.deep_view(), ..self@ }));
        }
        s
    }

    /// The locale field, if set.
    pub fn locale(&self) -> (r: &Option<String>)
        ensures
            r.deep_view() == self@.locale,
    {
        &self.locale
    }

    /// Replace the locale field.
    pub fn set_locale(self, locale: Option<String>) -> (r: Self)
        ensures
            r@ == (ClaimsView { locale: locale.deep_view(), ..self@ }),
            r.wf() == self.wf(),
    {
        let mut s = self;
        s.locale = locale;
        proof {
            assert(s@ =~= (ClaimsView { locale: s.locale.deep_view(), ..self@ }));
        }
        s
    }

    /// The phone_number field, if set.
    pub fn phone_number(&self) -> (r: &Option<String>)
        ensures
            r.deep_view() == self@.phone_number,
    {
        &self.phone_number
    }

    /// Replace the phone_number field.
    pub fn set_phone_number(self, phone_number: Option<String>) -> (r: Self)
        ensures
            r@ == (ClaimsView { phone_number: phone_number.deep_view(), ..self@ }),
            r.wf() == self.wf(),
    {
        let mut s = self;
        s.phone_number = phone_number;
        proof {
            assert(s@ =~= (ClaimsView { phone_number: s.phone_number.deep_view(), ..self@ }));
        }
        s
    }

    /// The email_verified flag, if set.
    pub fn email_verified(&self) -> (r: &Option<bool>)
        ensures
            r.deep_view() == self@.email_verified,
    {
        &self.email_verified
    }

    /// Replace the email_verified flag.
    pub fn set_email_verified(self, email_verified: Option<bool>) -> (r: Self)
        ensures
            r@ == (ClaimsView { email_verified: email_verified.deep_view(), ..self@ }),
            r.wf() == self.wf(),
    {
        let mut s = self;
        s.email_verified = email_verified;
        proof {
            assert(s@ =~= (ClaimsView { email_verified: s.email_verified.deep_view(), ..self@ }));
        }
        s
    }

    /// The phone_number_verified flag, if set.
    pub fn phone_number_verified(&self) -> (r: &Option<bool>)
        ensures
            r.deep_view() == self@.phone_number_verified,
    {
        &self.phone_number_verified
    }

    /// Replace the phone_number_verified flag.
    pub fn set_phone_number_verified(self, phone_number_verified: Option<bool>) -> (r: Self)
        ensures
            r@ == (ClaimsView { phone_number_verified: phone_number_verified.deep_view(), ..self@ }),
            r.wf() == self.wf(),
    {
        let mut s = self;
        s.phone_number_verified = phone_number_verified;
        proof {
            assert(s@ =~= (ClaimsView { phone_number_verified: s.phone_number_verified.deep_view(), ..self@ }));
        }
        s
    }

    /// The gender value, if set.
    pub fn gender(&self) -> (r: &Option<GC>)
        ensures
            (match *r {
                None => None,
                Some(g) => Some(g@),
            }) == self@.gender,
    {
        &self.gender
    }

    /// Replace the gender value.
    pub fn set_gender(self, gender: Option<GC>) -> (r: Self)
        ensures
            r@ == (ClaimsView {
                gender: (match gender {
                    None => None,
                    Some(g) => Some(g@),
                }),
                ..self@
            }),
            r.wf() == self.wf(),
    {
        let mut s = self;
        s.gender = gender;
        proof {
            assert(s@ =~= (ClaimsView {
                gender: (match s.gender {
                    None => None,
                    Some(g) => Some(g@),
                }),
                ..self@
            }));
        }
        s
    }

    /// The address structure, if one was constructed.
    pub fn address(&self) -> (r: &Option<AddressClaim>)
        ensures
            (match *r {
                None => None,
                Some(a) => Some(a@),
            }) == self@.address,
    {
        &self.address
    }

    /// Replace the address structure.
    pub fn set_address(self, address: Option<AddressClaim>) -> (r: Self)
        ensures
            r@ == (ClaimsView {
                address: (match address {
                    None => None,
                    Some(a) => Some(a@),
                }),
                ..self@
            }),
            r.wf() == self.wf(),
    {
        let mut s = self;
        s.address = address;
        proof {
            assert(s@ =~= (ClaimsView {
                address: (match s.address {
                    None => None,
                    Some(a) => Some(a@),
                }),
                ..self@
            }));
        }
        s
    }

    /// The update timestamp in whole seconds since the epoch, if set.
    pub fn updated_at(&self) -> (r: &Option<i64>)
        ensures
            (match *r {
                None => None,
                Some(t) => Some(t as int),
            }) == self@.updated_at,
    {
        &self.updated_at
    }

    /// Replace the update timestamp, in whole seconds since the epoch.
    pub fn set_updated_at(self, updated_at: Option<i64>) -> (r: Self)
        ensures
            r@ == (ClaimsView {
                updated_at: (match updated_at {
                    None => None,
                    Some(t) => Some(t as int),
                }),
                ..self@
            }),
            r.wf() == self.wf(),
    {
        let mut s = self;
        s.updated_at = updated_at;
        proof {
            assert(s@ =~= (ClaimsView {
                updated_at: (match s.updated_at {
                    None => None,
                    Some(t) => Some(t as int),
                }),
                ..self@
            }));
        }
        s
    }

    /// Replace the additional-claims payload.
    pub fn set_additional(self, additional: AC) -> (r: Self)
        ensures
            r@ == (ClaimsView { additional: additional@, ..self@ }),
            r.spec_additional() == additional,
            r.wf() == self.wf(),
    {
        let mut s = self;
        s.additional = additional;
        proof {
            assert(s@ =~= (ClaimsView { additional: s.additional@, ..self@ }));
        }
        s
    }
}

} // verus!
