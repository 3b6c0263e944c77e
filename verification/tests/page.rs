use linkwatch::page::Extract;
use linkwatch::page::UncheckedXPath;
use linkwatch::page::XPath;

#[test]
fn css_plain_key_is_length_prefixed() {
    let e = Extract::CSSPlain("a".to_string());
    assert_eq!(e.key_string(), "css:1:a");
}

#[test]
fn css_detailed_key_lists_every_component() {
    let e = Extract::CSSDetailed {
        container: "div.row".to_string(),
        href: "a".to_string(),
        text: "span.title".to_string(),
    };
    assert_eq!(e.key_string(), "cssd:7:div.row1:a10:span.title");
}

#[test]
fn keys_tell_colons_in_selectors_apart() {
    let a = Extract::CSSDetailed {
        container: "a:b".to_string(),
        href: "c".to_string(),
        text: "d".to_string(),
    };
    let b = Extract::CSSDetailed {
        container: "a".to_string(),
        href: "b:c".to_string(),
        text: "d".to_string(),
    };
    assert_ne!(a.key_string(), b.key_string());
}

#[test]
fn a_wellformed_xpath_is_accepted() {
    let x = XPath::try_new(UncheckedXPath::new("//a[@href]".to_string())).unwrap();
    assert_eq!(x.expression(), "//a[@href]");

    let e = Extract::XPathPlain(x);
    assert_eq!(e.key_string(), "xpath:10://a[@href]");
}

#[test]
fn a_malformed_xpath_is_rejected() {
    let r = XPath::try_new(UncheckedXPath::new("//a[".to_string()));
    assert!(r.is_err());
    assert_eq!(r.unwrap_err().expression, "//a[");
}

#[test]
fn an_expression_with_an_embedded_nul_is_rejected() {
    let r = XPath::try_new(UncheckedXPath::new("//a\u{0}b".to_string()));
    assert!(r.is_err());
}

#[test]
fn xpath_detailed_key_lists_every_component() {
    let container = XPath::try_new(UncheckedXPath::new("//div".to_string())).unwrap();
    let href = XPath::try_new(UncheckedXPath::new("a/@href".to_string())).unwrap();
    let text = XPath::try_new(UncheckedXPath::new("span".to_string())).unwrap();

    let e = Extract::XPathDetailed { container, href, text };
    assert_eq!(e.key_string(), "xpathd:5://div7:a/@href4:span");
}
