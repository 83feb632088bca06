use fastobo::date::NaiveDate;
use fastobo::error::{Error, Rule};
use fastobo::id::{
    Ident, IdentLocal, IdentPrefix, PrefixedIdent, RelationIdent, UnprefixedIdent,
};
use fastobo::pv::PropertyValue;
use fastobo::strings::{QuotedString, UnquotedString};
use fastobo::synonym::SynonymScope;

#[test]
fn pv_from_str() {
    let actual = PropertyValue::from_str("married_to heather").unwrap();
    let expected = PropertyValue::Identified(
        RelationIdent::from(Ident::Unprefixed(UnprefixedIdent::new(String::from("married_to")))),
        Ident::Unprefixed(UnprefixedIdent::new(String::from("heather"))),
    );
    assert_eq!(actual, expected);

    let actual = PropertyValue::from_str("shoe_size \"8\" xsd:positiveInteger").unwrap();
    let expected = PropertyValue::Typed(
        RelationIdent::from(Ident::Unprefixed(UnprefixedIdent::new(String::from("shoe_size")))),
        QuotedString::new(String::from("8")),
        Ident::from(PrefixedIdent::new(
            IdentPrefix::new(String::from("xsd")),
            IdentLocal::new(String::from("positiveInteger")),
        )),
    );
    assert_eq!(actual, expected);
}

#[test]
fn property_values_are_written() {
    let identified = PropertyValue::from_str("married_to heather").unwrap();
    assert_eq!(identified.to_string(), "married_to heather");
    assert_eq!(identified.share().to_string(), "married_to heather");
    let typed = PropertyValue::from_str("shoe_size \"8\" xsd:positiveInteger").unwrap();
    assert_eq!(typed.to_string(), "shoe_size \"8\" xsd:positiveInteger");
    assert_eq!(typed.share().redeem(), typed);
    assert_eq!(identified.share().redeem(), identified);
}

#[test]
fn an_unquoted_value_is_taken_for_a_string() {
    let actual = PropertyValue::from_str("shoe_size 8 xsd:positiveInteger").unwrap();
    let expected = PropertyValue::from_str("shoe_size \"8\" xsd:positiveInteger").unwrap();
    assert_eq!(actual, expected);
    assert_eq!(actual.to_string(), "shoe_size \"8\" xsd:positiveInteger");
}

#[test]
fn malformed_property_values_are_syntax_errors() {
    let expected = Err(Error::SyntaxError { rule: Rule::PropertyValue });
    assert_eq!(PropertyValue::from_str(""), expected);
    assert_eq!(PropertyValue::from_str("married_to"), expected);
    assert_eq!(PropertyValue::from_str("married_to  heather"), expected);
    assert_eq!(PropertyValue::from_str("married_to heather "), expected);
    assert_eq!(PropertyValue::from_str("\"married_to\" heather"), expected);
    assert_eq!(PropertyValue::from_str("a \"b\""), expected);
    assert_eq!(PropertyValue::from_str("a \"b\" \"c\""), expected);
    assert_eq!(PropertyValue::from_str("a b c d"), expected);
    assert_eq!(PropertyValue::from_str("a \"b c"), expected);
    assert_eq!(PropertyValue::from_str("married_to heather ! comment"), expected);
}

#[test]
fn quoted_strings() {
    let q = QuotedString::new(String::from("say \"hi\"\\\n"));
    assert_eq!(q.to_string(), "\"say \\\"hi\\\"\\\\\\n\"");
    assert_eq!(QuotedString::from_str(&q.to_string()), Ok(q.clone()));
    assert_eq!(q.share().to_string(), q.to_string());
    assert_eq!(q.share().redeem(), q);
    assert_eq!(QuotedString::from_str("\"\"").unwrap().as_str(), "");
    assert_eq!(QuotedString::from_str("\"a b!{:\"").unwrap().as_str(), "a b!{:");
    let expected = Err(Error::SyntaxError { rule: Rule::QuotedString });
    assert_eq!(QuotedString::from_str(""), expected);
    assert_eq!(QuotedString::from_str("abc"), expected);
    assert_eq!(QuotedString::from_str("\"abc"), expected);
    assert_eq!(QuotedString::from_str("\"abc\" "), expected);
    assert_eq!(QuotedString::from_str("\"a\"b\""), expected);
    assert_eq!(QuotedString::from_str("\"a\nb\""), expected);
    assert_eq!(QuotedString::from_str("\"abc\\\""), expected);
}

#[test]
fn unquoted_strings() {
    let u = UnquotedString::new(String::from("wait! {now}\n\\"));
    assert_eq!(u.to_string(), "wait\\! \\{now}\\n\\\\");
    assert_eq!(UnquotedString::from_str(&u.to_string()), Ok(u));
    assert_eq!(UnquotedString::from_str("").unwrap().as_str(), "");
    assert_eq!(UnquotedString::from_str("a \"b\" : c").unwrap().as_str(), "a \"b\" : c");
    let expected = Err(Error::SyntaxError { rule: Rule::UnquotedString });
    assert_eq!(UnquotedString::from_str("a ! b"), expected);
    assert_eq!(UnquotedString::from_str("a {b"), expected);
    assert_eq!(UnquotedString::from_str("a\nb"), expected);
    assert_eq!(UnquotedString::from_str("a\\"), expected);
}

#[test]
fn dates() {
    let date = NaiveDate::new(14, 3, 2019, 12, 30);
    assert!(date.is_valid());
    assert_eq!(date.to_string(), "14:03:2019 12:30");
    assert_eq!(NaiveDate::from_str("14:03:2019 12:30"), Ok(date));
    assert_eq!(NaiveDate::from_str("01:01:0001 00:00"), Ok(NaiveDate::new(1, 1, 1, 0, 0)));
    assert_eq!(NaiveDate::new(1, 1, 1, 0, 0).to_string(), "01:01:0001 00:00");
    let expected = Err(Error::SyntaxError { rule: Rule::Date });
    assert_eq!(NaiveDate::from_str(""), expected);
    assert_eq!(NaiveDate::from_str("14:03:2019"), expected);
    assert_eq!(NaiveDate::from_str("14-03-2019 12:30"), expected);
    assert_eq!(NaiveDate::from_str("14:03:2019 12:3x"), expected);
    assert_eq!(NaiveDate::from_str("14:03:2019 12:30 "), expected);
    // A part that does not fit its digits is written with its last digits.
    let odd = NaiveDate::new(123, 3, 12019, 12, 30);
    assert!(!odd.is_valid());
    assert_eq!(odd.to_string(), "23:03:2019 12:30");
}

#[test]
fn scopes() {
    assert_eq!(SynonymScope::Exact.as_str(), "EXACT");
    assert_eq!(SynonymScope::Broad.as_str(), "BROAD");
    assert_eq!(SynonymScope::Narrow.as_str(), "NARROW");
    assert_eq!(SynonymScope::Related.as_str(), "RELATED");
    assert_eq!(SynonymScope::from_str("EXACT"), Some(SynonymScope::Exact));
    assert_eq!(SynonymScope::from_str("BROAD"), Some(SynonymScope::Broad));
    assert_eq!(SynonymScope::from_str("NARROW"), Some(SynonymScope::Narrow));
    assert_eq!(SynonymScope::from_str("RELATED"), Some(SynonymScope::Related));
    assert_eq!(SynonymScope::from_str("exact"), None);
    assert_eq!(SynonymScope::from_str(""), None);
}
