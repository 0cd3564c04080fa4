use claimset::AddressClaim;
use claimset::ClaimError;
use claimset::ClaimValue;
use claimset::EmptyAdditionalClaims;
use claimset::LocalizedClaim;
use claimset::RawAdditionalClaims;
use claimset::StandardClaims;
use claimset::StrictAdditionalClaims;
use claimset::TextGenderClaim;
use claimset::helpers::assemble_key;
use claimset::helpers::seconds_toward_zero;
use claimset::helpers::split_language_tag_key;

type Claims = StandardClaims<TextGenderClaim, EmptyAdditionalClaims>;
type StrictClaims = StandardClaims<TextGenderClaim, StrictAdditionalClaims>;
type RawClaims = StandardClaims<TextGenderClaim, RawAdditionalClaims>;

fn text(s: &str) -> ClaimValue {
    ClaimValue::Text(s.to_string())
}

fn pair(k: &str, v: ClaimValue) -> (String, ClaimValue) {
    (k.to_string(), v)
}

#[test]
fn decode_subject_and_localized_name() {
    let pairs = vec![
        pair("sub", text("alice")),
        pair("name", text("Alice")),
        pair("name#fr", text("Alice (fr)")),
    ];
    let c = Claims::decode(&pairs).unwrap();
    assert_eq!(c.subject(), "alice");
    let name = c.name().as_ref().unwrap();
    assert_eq!(name.len(), 2);
    assert_eq!(name.get(&None).unwrap(), "Alice");
    assert_eq!(name.get(&Some("fr".to_string())).unwrap(), "Alice (fr)");
}

#[test]
fn encode_subject_only() {
    let c = Claims::new("bob".to_string());
    let out = c.encode().unwrap();
    assert_eq!(out, vec![pair("sub", text("bob"))]);
}

#[test]
fn address_never_set_is_not_encoded() {
    let c = Claims::new("bob".to_string())
        .set_email(Some("bob@example.com".to_string()))
        .set_email_verified(Some(true));
    let out = c.encode().unwrap();
    assert!(out.iter().all(|(k, _)| k != "address"));
    assert!(out.iter().any(|(k, _)| k == "email"));
}

#[test]
fn duplicate_plain_name_fails() {
    let pairs = vec![
        pair("sub", text("a")),
        pair("name", text("x")),
        pair("name", text("y")),
    ];
    let e = Claims::decode(&pairs).unwrap_err();
    assert_eq!(e, ClaimError::DuplicateField("name".to_string(), None));
}

#[test]
fn duplicate_localized_tag_fails() {
    let pairs = vec![
        pair("sub", text("a")),
        pair("name#fr", text("x")),
        pair("name#fr", text("y")),
    ];
    let e = Claims::decode(&pairs).unwrap_err();
    assert_eq!(
        e,
        ClaimError::DuplicateField("name".to_string(), Some("fr".to_string()))
    );
}

#[test]
fn duplicate_email_fails() {
    let pairs = vec![
        pair("sub", text("a")),
        pair("email", text("x@y")),
        pair("email", text("z@y")),
    ];
    let e = Claims::decode(&pairs).unwrap_err();
    assert_eq!(e, ClaimError::DuplicateField("email".to_string(), None));
}

#[test]
fn localization_suffix_rejected_on_email() {
    let pairs = vec![pair("sub", text("a")), pair("email#fr", text("x@y"))];
    let e = Claims::decode(&pairs).unwrap_err();
    assert_eq!(
        e,
        ClaimError::UnexpectedLocalizedVariant("email".to_string())
    );
}

#[test]
fn strict_extension_rejects_unknown_key() {
    let pairs = vec![pair("sub", text("a")), pair("foo", text("bar"))];
    let e = StrictClaims::decode(&pairs).unwrap_err();
    assert_eq!(e, ClaimError::UnexpectedField("foo".to_string()));
}

#[test]
fn permissive_extension_ignores_unknown_key() {
    let pairs = vec![pair("sub", text("a")), pair("foo", text("bar"))];
    let c = Claims::decode(&pairs).unwrap();
    assert_eq!(c.subject(), "a");
}

#[test]
fn raw_extension_keeps_unknown_pairs() {
    let pairs = vec![
        pair("sub", text("a")),
        pair("x-color", text("teal")),
        pair("x-level", ClaimValue::Integer(3)),
    ];
    let c = RawClaims::decode(&pairs).unwrap();
    assert_eq!(
        c.additional_claims().pairs,
        vec![
            pair("x-color", text("teal")),
            pair("x-level", ClaimValue::Integer(3)),
        ]
    );
}

#[test]
fn round_trip_full_claim_set() {
    let mut name = LocalizedClaim::new();
    assert!(name.insert(None, "Ann".to_string()));
    assert!(name.insert(Some("fr".to_string()), "Anne".to_string()));
    assert!(name.insert(Some("de".to_string()), "Anna".to_string()));
    let mut website = LocalizedClaim::new();
    assert!(website.insert(Some("en".to_string()), "https://example.com/en".to_string()));
    let address = AddressClaim {
        formatted: Some("1 Main St\nSpringfield".to_string()),
        street_address: Some("1 Main St".to_string()),
        locality: Some("Springfield".to_string()),
        region: None,
        postal_code: Some("12345".to_string()),
        country: None,
    };
    let extra = RawAdditionalClaims {
        pairs: vec![
            pair("x-color", text("teal")),
            pair("x-level", ClaimValue::Integer(3)),
        ],
    };
    let c = RawClaims::new("alice".to_string())
        .set_name(Some(name))
        .set_website(Some(website))
        .set_preferred_username(Some("ali".to_string()))
        .set_email(Some("alice@example.com".to_string()))
        .set_email_verified(Some(true))
        .set_gender(Some(TextGenderClaim {
            text: "female".to_string(),
        }))
        .set_birthday(Some("2000-01-02".to_string()))
        .set_zoneinfo(Some("Europe/Paris".to_string()))
        .set_locale(Some("fr-FR".to_string()))
        .set_phone_number(Some("+1 555 0100".to_string()))
        .set_phone_number_verified(Some(false))
        .set_address(Some(address))
        .set_updated_at(Some(-1234))
        .set_additional(extra);
    let encoded = c.encode().unwrap();
    let decoded = RawClaims::decode(&encoded).unwrap();
    assert_eq!(decoded, c);
}

#[test]
fn localized_order_independence() {
    let mut a = LocalizedClaim::new();
    assert!(a.insert(None, "A".to_string()));
    assert!(a.insert(Some("fr".to_string()), "B".to_string()));
    let mut b = LocalizedClaim::new();
    assert!(b.insert(Some("fr".to_string()), "B".to_string()));
    assert!(b.insert(None, "A".to_string()));
    assert!(a.same_entries(&b));
    assert!(b.same_entries(&a));
    let mut d = LocalizedClaim::new();
    assert!(d.insert(Some("fr".to_string()), "C".to_string()));
    assert!(!a.same_entries(&d));
}

#[test]
fn decode_order_independence_of_localized_entries() {
    let p1 = vec![
        pair("sub", text("a")),
        pair("name", text("A")),
        pair("name#fr", text("B")),
    ];
    let p2 = vec![
        pair("sub", text("a")),
        pair("name#fr", text("B")),
        pair("name", text("A")),
    ];
    let c1 = Claims::decode(&p1).unwrap();
    let c2 = Claims::decode(&p2).unwrap();
    let n1 = c1.name().as_ref().unwrap();
    let n2 = c2.name().as_ref().unwrap();
    assert!(n1.same_entries(n2));
}

#[test]
fn missing_subject_fails() {
    let pairs = vec![pair("name", text("x"))];
    let e = Claims::decode(&pairs).unwrap_err();
    assert_eq!(e, ClaimError::MissingRequiredField("sub".to_string()));
}

#[test]
fn subject_type_mismatch_fails() {
    let pairs = vec![pair("sub", ClaimValue::Flag(true))];
    let e = Claims::decode(&pairs).unwrap_err();
    assert_eq!(e, ClaimError::TypeMismatch("sub".to_string()));
}

#[test]
fn flag_type_mismatch_fails() {
    let pairs = vec![pair("sub", text("a")), pair("email_verified", text("yes"))];
    let e = Claims::decode(&pairs).unwrap_err();
    assert_eq!(e, ClaimError::TypeMismatch("email_verified".to_string()));
}

#[test]
fn gender_type_mismatch_fails() {
    let pairs = vec![pair("sub", text("a")), pair("gender", ClaimValue::Flag(true))];
    let e = Claims::decode(&pairs).unwrap_err();
    assert_eq!(e, ClaimError::TypeMismatch("gender".to_string()));
}

#[test]
fn timestamp_truncates_toward_zero() {
    assert_eq!(seconds_toward_zero(5, 0), 5);
    assert_eq!(seconds_toward_zero(5, 500_000_000), 5);
    assert_eq!(seconds_toward_zero(0, 999_999_999), 0);
    assert_eq!(seconds_toward_zero(-1, 500_000_000), 0);
    assert_eq!(seconds_toward_zero(-2, 1), -1);
    assert_eq!(seconds_toward_zero(-3, 0), -3);
}

#[test]
fn updated_at_encodes_as_integer_seconds() {
    let c = Claims::new("a".to_string()).set_updated_at(Some(1_700_000_000));
    let out = c.encode().unwrap();
    assert!(out.contains(&pair("updated_at", ClaimValue::Integer(1_700_000_000))));
}

#[test]
fn split_key_variants() {
    assert_eq!(split_language_tag_key("name"), ("name".to_string(), None));
    assert_eq!(
        split_language_tag_key("name#fr"),
        ("name".to_string(), Some("fr".to_string()))
    );
    assert_eq!(
        split_language_tag_key("email#"),
        ("email".to_string(), Some("".to_string()))
    );
    assert_eq!(
        split_language_tag_key("a#b#c"),
        ("a".to_string(), Some("b#c".to_string()))
    );
    assert_eq!(split_language_tag_key(""), ("".to_string(), None));
}

#[test]
fn empty_tag_is_a_distinct_tag() {
    let pairs = vec![
        pair("sub", text("a")),
        pair("name", text("plain")),
        pair("name#", text("empty-tagged")),
    ];
    let c = Claims::decode(&pairs).unwrap();
    let name = c.name().as_ref().unwrap();
    assert_eq!(name.len(), 2);
    assert_eq!(name.get(&None).unwrap(), "plain");
    assert_eq!(name.get(&Some(String::new())).unwrap(), "empty-tagged");
}

#[test]
fn assemble_key_joins_base_and_tag() {
    assert_eq!(assemble_key("name", &None), "name");
    assert_eq!(assemble_key("name", &Some("fr".to_string())), "name#fr");
    assert_eq!(assemble_key("name", &Some(String::new())), "name#");
}

#[test]
fn localized_insert_rejects_duplicate_tag() {
    let mut c = LocalizedClaim::new();
    assert!(c.insert(Some("fr".to_string()), "x".to_string()));
    assert!(!c.insert(Some("fr".to_string()), "y".to_string()));
    assert_eq!(c.len(), 1);
    assert_eq!(c.get(&Some("fr".to_string())).unwrap(), "x");
}

#[test]
fn address_object_decodes_and_ignores_unknown_subfields() {
    let obj = vec![
        ("locality".to_string(), "Springfield".to_string()),
        ("country".to_string(), "US".to_string()),
        ("mystery".to_string(), "ignored".to_string()),
    ];
    let a = AddressClaim::decode_object(&obj).unwrap();
    assert_eq!(a.locality.as_deref(), Some("Springfield"));
    assert_eq!(a.country.as_deref(), Some("US"));
    assert_eq!(a.formatted, None);
}

#[test]
fn address_object_duplicate_subfield_fails() {
    let obj = vec![
        ("street_address".to_string(), "1 Main St".to_string()),
        ("street_address".to_string(), "2 Main St".to_string()),
    ];
    let e = AddressClaim::decode_object(&obj).unwrap_err();
    assert_eq!(
        e,
        ClaimError::DuplicateField("street_address".to_string(), None)
    );
}

#[test]
fn address_decoded_as_nested_object() {
    let pairs = vec![
        pair("sub", text("a")),
        pair(
            "address",
            ClaimValue::Object(vec![(
                "postal_code".to_string(),
                "99999".to_string(),
            )]),
        ),
    ];
    let c = Claims::decode(&pairs).unwrap();
    let a = c.address().as_ref().unwrap();
    assert_eq!(a.postal_code.as_deref(), Some("99999"));
}

#[test]
fn set_subject_replaces_subject() {
    let c = Claims::new("a".to_string()).set_subject("b".to_string());
    assert_eq!(c.subject(), "b");
}
