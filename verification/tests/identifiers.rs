use fastobo::error::{Error, Rule};
use fastobo::id::{
    Id, IdLocal, IdPrefix, Ident, IdentLocal, IdentPrefix, PrefixedId, PrefixedIdent,
    UnprefixedId, UnprefixedIdent, Url,
};
use std::cmp::Ordering;

fn prefixed(prefix: &str, local: &str) -> PrefixedIdent {
    PrefixedIdent::new(
        IdentPrefix::new(String::from(prefix)),
        IdentLocal::new(String::from(local)),
    )
}

#[test]
fn mod_from_str() {
    let actual = Ident::from_str("http://purl.obolibrary.org/obo/po.owl").unwrap();
    let expected = Ident::Url(Url::parse("http://purl.obolibrary.org/obo/po.owl").unwrap());
    assert_eq!(actual, expected);

    let actual = Ident::from_str("GO:0046154").unwrap();
    let expected = Ident::Prefixed(PrefixedIdent::new(
        IdentPrefix::new(String::from("GO")),
        IdentLocal::new(String::from("0046154")),
    ));
    assert_eq!(actual, expected);

    let actual = Ident::from_str("goslim_plant").unwrap();
    let expected = Ident::Unprefixed(UnprefixedIdent::new(String::from("goslim_plant")));
    assert_eq!(actual, expected);
}

#[test]
fn prefixed_from_str() {
    let actual = PrefixedIdent::from_str("GO:0046154").unwrap();
    let expected = PrefixedIdent::new(
        IdentPrefix::new(String::from("GO")),
        IdentLocal::new(String::from("0046154")),
    );
    assert_eq!(actual, expected);

    let actual = PrefixedIdent::from_str("PSI:MS").unwrap();
    let expected = PrefixedIdent::new(
        IdentPrefix::new(String::from("PSI")),
        IdentLocal::new(String::from("MS")),
    );
    assert_eq!(actual, expected);

    let actual = PrefixedIdent::from_str("CAS:22325-47-9").unwrap();
    let expected = PrefixedIdent::new(
        IdentPrefix::new(String::from("CAS")),
        IdentLocal::new(String::from("22325-47-9")),
    );
    assert_eq!(actual, expected);

    let actual = PrefixedIdent::from_str("Wikipedia:https\\://en.wikipedia.org/wiki/Gas").unwrap();
    let expected = PrefixedIdent::new(
        IdentPrefix::new(String::from("Wikipedia")),
        IdentLocal::new(String::from("https://en.wikipedia.org/wiki/Gas")),
    );
    assert_eq!(actual, expected);

    assert!(PrefixedIdent::from_str("[Term]").is_err());
    assert!(PrefixedIdent::from_str("").is_err());
    assert!(PrefixedIdent::from_str("Some\nthing:spanning").is_err());
    assert!(PrefixedIdent::from_str("GO:0046154 remaining").is_err());
}

#[test]
fn to_string() {
    let id = PrefixedIdent::new(
        IdentPrefix::new(String::from("GO")),
        IdentLocal::new(String::from("0046154")),
    );
    assert_eq!(id.to_string(), "GO:0046154")
}

#[test]
fn malformed_prefixed_is_a_syntax_error() {
    let expected = Error::SyntaxError { rule: Rule::PrefixedId };
    assert_eq!(PrefixedIdent::from_str(""), Err(expected));
    assert_eq!(PrefixedIdent::from_str("[Term]"), Err(expected));
    assert_eq!(PrefixedIdent::from_str("Some\nthing:spanning"), Err(expected));
    assert_eq!(PrefixedIdent::from_str("GO:0046154 remaining"), Err(expected));
    assert_eq!(PrefixedIdent::from_str("GO:"), Err(expected));
    assert_eq!(PrefixedIdent::from_str(":0046154"), Err(expected));
    assert_eq!(PrefixedIdent::from_str("GO:0046154\\"), Err(expected));
}

#[test]
fn malformed_ident_is_a_syntax_error() {
    let expected = Error::SyntaxError { rule: Rule::Id };
    assert_eq!(Ident::from_str(""), Err(expected));
    assert_eq!(Ident::from_str("GO:0046154 remaining"), Err(expected));
    assert_eq!(Ident::from_str(" GO:0046154"), Err(expected));
    assert_eq!(Ident::from_str("Some\nthing:spanning"), Err(expected));
    assert_eq!(Ident::from_str("two words"), Err(expected));
    // Nothing is dropped from a text on the way to a URL.
    assert_eq!(Ident::from_str(" http://example.org/"), Err(expected));
    assert_eq!(Ident::from_str("http://example.org/ "), Err(expected));
    assert_eq!(Ident::from_str("http://example.org/a\tb"), Err(expected));
    assert_eq!(Ident::from_str("http://example.org/a\"b"), Err(expected));
    assert!(Url::parse(" http://example.org/ ").is_ok());
}

#[test]
fn kinds_are_told_apart() {
    assert!(matches!(Ident::from_str("GO:0046154"), Ok(Ident::Prefixed(_))));
    assert!(matches!(Ident::from_str("goslim_plant"), Ok(Ident::Unprefixed(_))));
    assert!(matches!(
        Ident::from_str("http://purl.obolibrary.org/obo/po.owl"),
        Ok(Ident::Url(_))
    ));
    // A URL is the last kind tried: a scheme alone does not make one.
    assert!(matches!(Ident::from_str("mailto:someone"), Ok(Ident::Prefixed(_))));
    assert!(PrefixedIdent::from_str("http://purl.obolibrary.org/obo/po.owl").is_err());
    assert!(UnprefixedIdent::from_str("GO:0046154").is_err());
}

#[test]
fn canonical_form() {
    assert!(prefixed("GO", "0046154").is_canonical());
    assert!(!prefixed("PATO", "something").is_canonical());
    assert!(PrefixedIdent::from_str("GO:0046154").unwrap().is_canonical());
    assert!(!PrefixedIdent::from_str("PATO:something").unwrap().is_canonical());
    assert!(IdentPrefix::new(String::from("GO_REF")).is_canonical());
    assert!(!IdentPrefix::new(String::from("")).is_canonical());
    assert!(!IdentPrefix::new(String::from("a b")).is_canonical());
    assert!(!IdentLocal::new(String::from("")).is_canonical());
    assert!(!IdentLocal::new(String::from("12a")).is_canonical());
    assert!(UnprefixedIdent::new(String::from("goslim_plant")).is_canonical());
    assert!(!UnprefixedIdent::new(String::from("goslim-plant")).is_canonical());
    assert!(Ident::from_str("GO:0046154").unwrap().is_canonical());
    assert!(!Ident::from_str("PATO:something").unwrap().is_canonical());
    assert!(Ident::from_str("goslim_plant").unwrap().is_canonical());
    assert!(Ident::from_str("http://purl.obolibrary.org/obo/po.owl").unwrap().is_canonical());
}

#[test]
fn escaping_round_trip() {
    let text = "Wikipedia:https\\://en.wikipedia.org/wiki/Gas";
    let id = PrefixedIdent::from_str(text).unwrap();
    assert_eq!(id.local.as_str(), "https://en.wikipedia.org/wiki/Gas");
    assert_eq!(id.to_string(), text);
}

#[test]
fn escapes_are_written_and_read() {
    let id = prefixed("a b", "c:d\te\nf\\g\"h!i{j}[k],l");
    let text = id.to_string();
    assert_eq!(text, "a\\ b:c\\:d\\te\\nf\\\\g\\\"h\\!i\\{j\\}\\[k\\]\\,l");
    assert_eq!(PrefixedIdent::from_str(&text).unwrap(), id);

    let id = UnprefixedIdent::new(String::from("x:y z"));
    assert_eq!(id.to_string(), "x\\:y\\ z");
    assert_eq!(Ident::from_str("x\\:y\\ z").unwrap(), Ident::Unprefixed(id));

    // A backslash in front of any other character stands for that character.
    let id = PrefixedIdent::from_str("G\\O:\\1\\r\\f").unwrap();
    assert_eq!(id, prefixed("GO", "1\r\u{c}"));
}

#[test]
fn canonical_text_is_unchanged() {
    for text in ["GO:0046154", "PSI:MS", "CAS:22325-47-9", "goslim_plant",
        "http://purl.obolibrary.org/obo/po.owl"]
    {
        assert_eq!(Ident::from_str(text).unwrap().to_string(), text);
    }
}

#[test]
fn written_identifiers_are_read_back() {
    let ids = vec![
        Ident::Prefixed(prefixed("GO", "0046154")),
        Ident::Prefixed(prefixed("has space", "/x")),
        Ident::Unprefixed(UnprefixedIdent::new(String::from("part_of"))),
        Ident::Unprefixed(UnprefixedIdent::new(String::from("\\"))),
        Ident::Url(Url::parse("https://example.org/a?b=c#d").unwrap()),
    ];
    for id in ids {
        assert_eq!(Ident::from_str(&id.to_string()).unwrap(), id);
    }
}

#[test]
fn urls_are_kept_as_their_serialization() {
    let url = Url::parse("HTTP://Example.ORG").unwrap();
    assert_eq!(url.as_str(), "http://example.org/");
    assert_eq!(url.to_string(), "http://example.org/");
    assert_eq!(Url::parse("not a url"), Err(Error::SyntaxError { rule: Rule::UrlId }));
    assert_eq!(Url::parse(""), Err(Error::SyntaxError { rule: Rule::UrlId }));
    assert_eq!(
        Url::from_serialization(String::from("http://a/"), Some(String::from("http://a/b"))),
        Err(Error::SyntaxError { rule: Rule::UrlId })
    );
    assert_eq!(
        Url::from_serialization(String::from("http://a/"), None),
        Err(Error::SyntaxError { rule: Rule::UrlId })
    );
    assert_eq!(
        Url::from_serialization(String::from("a b"), Some(String::from("a b"))),
        Err(Error::SyntaxError { rule: Rule::UrlId })
    );
    assert!(Url::from_serialization(String::from("http://a/"), Some(String::from("http://a/")))
        .is_ok());
}

#[test]
fn borrowed_and_owned_forms() {
    let owned = prefixed("GO", "0046154");
    let shared = owned.share();
    assert_eq!(shared.prefix().as_str(), "GO");
    assert_eq!(shared.local().as_str(), "0046154");
    assert_eq!(shared.to_string(), "GO:0046154");
    assert_eq!(shared.redeem(), owned);
    assert_eq!(shared, PrefixedId::new(IdPrefix::new("GO"), IdLocal::new("0046154")));

    let ident = Ident::Prefixed(owned.clone());
    assert_eq!(ident.share().redeem(), ident);
    assert_eq!(ident.share().to_string(), "GO:0046154");
    let url = Ident::Url(Url::parse("http://purl.obolibrary.org/obo/po.owl").unwrap());
    assert!(matches!(url.share(), Id::Url(_)));
    assert_eq!(url.share().redeem(), url);
    let plain = Ident::Unprefixed(UnprefixedIdent::new(String::from("part of")));
    assert_eq!(plain.share().to_string(), "part\\ of");
    assert_eq!(plain.share().redeem(), plain);
}

#[test]
fn borrowed_forms_are_read_without_copying_where_they_can_be() {
    let text = String::from("GO:0046154");
    let id = PrefixedId::from_str(&text).unwrap();
    assert_eq!(id.redeem(), prefixed("GO", "0046154"));
    assert_eq!(id.prefix().as_str().as_ptr(), text.as_ptr());
    assert_eq!(id.local().as_str().as_ptr(), text[3..].as_ptr());

    let escaped = String::from("Wikipedia:https\\://en.wikipedia.org/wiki/Gas");
    let id = PrefixedId::from_str(&escaped).unwrap();
    assert_eq!(id.prefix().as_str().as_ptr(), escaped.as_ptr());
    assert_eq!(id.local().as_str(), "https://en.wikipedia.org/wiki/Gas");
    assert_eq!(id.to_string(), escaped);

    assert_eq!(
        PrefixedId::from_str("no colon").err(),
        Some(Error::SyntaxError { rule: Rule::PrefixedId })
    );
    assert_eq!(IdPrefix::from_str("GO").unwrap().as_str(), "GO");
    assert_eq!(IdPrefix::from_str("G\\ O").unwrap().as_str(), "G O");
    assert_eq!(IdPrefix::from_str("G O").err(), Some(Error::SyntaxError { rule: Rule::IdPrefix }));
    assert_eq!(IdLocal::from_str("").err(), Some(Error::SyntaxError { rule: Rule::IdLocal }));
    assert_eq!(
        UnprefixedId::from_str("a:b").err(),
        Some(Error::SyntaxError { rule: Rule::UnprefixedId })
    );
    assert_eq!(UnprefixedId::from_str("goslim_plant").unwrap().redeem().as_str(), "goslim_plant");
}

#[test]
fn identifiers_are_ordered() {
    let a = prefixed("GO", "0000001");
    let b = prefixed("GO", "0000002");
    let c = prefixed("GOA", "0");
    let d = prefixed("G", "9");
    assert_eq!(a.partial_cmp(&a), Some(Ordering::Equal));
    assert_eq!(a.partial_cmp(&b), Some(Ordering::Less));
    assert_eq!(b.partial_cmp(&a), Some(Ordering::Greater));
    assert_eq!(b.partial_cmp(&c), Some(Ordering::Less));
    assert_eq!(d.partial_cmp(&a), Some(Ordering::Less));
    assert!(a < b && b < c && d < a);
    assert_eq!(a.cmp(&b), Ordering::Less);
    assert_eq!(c.cmp(&b), Ordering::Greater);

    let p = Ident::Prefixed(prefixed("z", "z"));
    let u = Ident::Unprefixed(UnprefixedIdent::new(String::from("a")));
    let v = Ident::Unprefixed(UnprefixedIdent::new(String::from("ab")));
    let w = Ident::Url(Url::parse("http://a/").unwrap());
    assert_eq!(p.partial_cmp(&u), Some(Ordering::Less));
    assert_eq!(u.partial_cmp(&p), Some(Ordering::Greater));
    assert_eq!(u.partial_cmp(&v), Some(Ordering::Less));
    assert_eq!(v.partial_cmp(&w), Some(Ordering::Less));
    assert_eq!(w.partial_cmp(&p), Some(Ordering::Greater));
    assert_eq!(w.partial_cmp(&w), Some(Ordering::Equal));
    assert_eq!(p.cmp(&u), Ordering::Less);
    assert_eq!(w.cmp(&v), Ordering::Greater);
    let mut ids = vec![w.clone(), v.clone(), p.clone(), u.clone()];
    ids.sort();
    assert_eq!(ids, vec![p, u, v, w]);
}

#[test]
fn a_url_that_reads_as_another_kind_is_no_identifier() {
    let url = Url::parse("http://purl.obolibrary.org/obo/po.owl").unwrap();
    assert_eq!(Ident::from_url(url.clone()), Ok(Ident::Url(url)));
    let mail = Url::parse("mailto:someone").unwrap();
    assert_eq!(Ident::from_url(mail), Err(Error::SyntaxError { rule: Rule::Id }));
}
