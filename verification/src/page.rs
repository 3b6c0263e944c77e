//! Watched pages, their extraction specs, and extracted links.
//!
//! A page is identified in the store by its URL together with its
//! extraction spec serialized to a key string. The key format is
//! unambiguous: a variant tag, then each component as its character count,
//! a separator, and the characters themselves. An XPath expression is
//! checked against an empty document before it is accepted.

use vstd::prelude::*;

use crate::decimal::dec_str;
use crate::decimal::is_digit_char;
use crate::decimal::lemma_dec_str_digits;
use crate::decimal::lemma_dec_str_injective;
use crate::decimal::lemma_dec_str_len;
use crate::decimal::u64_to_dec;

verus! {

/// An (href, text) pair pulled out of a page. Unique only together with
/// the page it was seen on.
#[derive(Debug, Clone)]
pub struct Link {
    pub href: String,
    pub text: String,
}

/// A validated XPath expression.
#[derive(Debug, Clone)]
pub struct XPath(String);

/// An XPath expression as configured, not yet validated.
#[derive(Debug, Clone)]
pub struct UncheckedXPath(String);

/// An expression that the XPath engine would not accept.
#[derive(Debug)]
pub struct XPathError {
    pub expression: String,
}

impl View for XPath {
    type V = Seq<char>;

    closed spec fn view(&self) -> Seq<char> {
        self.0@
    }
}

impl View for UncheckedXPath {
    type V = Seq<char>;

    closed spec fn view(&self) -> Seq<char> {
        self.0@
    }
}

/// Whether the XPath engine accepts the expression. The engine's grammar
/// takes pages to state; the name stands for its verdict, which depends
/// on the expression alone.
pub uninterp spec fn xpath_valid(expr: Seq<char>) -> bool;

/// Relies on libxml's expression evaluation against a context on an
/// empty document: whether evaluation succeeds there depends on the
/// expression alone, and tells an accepted expression from a rejected one.
#[verifier::external_body]
fn xpath_compiles(expr: &str) -> (r: bool)
    requires
        !expr@.contains('\0'),
    ensures
        r == xpath_valid(expr@),
{
    let doc = libxml::tree::document::Document::new().expect("empty document");
    let mut ctx = libxml::xpath::Context::new(&doc).expect("empty document context");
    ctx.findnodes(expr, None).is_ok()
}

/// Whether the string holds an embedded NUL character, which the XPath
/// engine cannot receive.
fn contains_nul(s: &str) -> (r: bool)
    ensures
        r == s@.contains('\0'),
{
    let n = s.unicode_len();
    let mut i: usize = 0;
    while i < n
        invariant
            0 <= i <= n,
            n == s@.len(),
            forall|j: int| 0 <= j < i ==> s@[j] != '\0',
        decreases n - i,
    {
        if s.get_char(i) == '\0' {
            assert(s@.contains('\0'));
            return true;
        }
        i = i + 1;
    }
    assert(forall|j: int| 0 <= j < s@.len() ==> s@[j] != '\0');
    false
}

impl UncheckedXPath {
    /// Wraps an expression as configured.
    pub fn new(expression: String) -> (r: Self)
        ensures
            r@ == expression@,
    {
        UncheckedXPath(expression)
    }

    /// The expression text.
    pub fn expression(&self) -> (r: &String)
        ensures
            r@ == self@,
    {
        &self.0
    }
}

impl XPath {
    /// Validates an expression: accepted exactly where the XPath engine
    /// accepts it. An expression with an embedded NUL is rejected without
    /// asking the engine, which could not receive it.
    pub fn try_new(unchecked: UncheckedXPath) -> (r: Result<XPath, XPathError>)
        ensures
            r matches Ok(x) ==> x@ == unchecked@ && !unchecked@.contains('\0') && xpath_valid(
                unchecked@,
            ),
            r matches Err(e) ==> e.expression@ == unchecked@ && (unchecked@.contains('\0')
                || !xpath_valid(unchecked@)),
    {
        let UncheckedXPath(expression) = unchecked;
        if contains_nul(expression.as_str()) {
            return Err(XPathError { expression });
        }
        if xpath_compiles(expression.as_str()) {
            Ok(XPath(expression))
        } else {
            Err(XPathError { expression })
        }
    }

    /// The validated expression text.
    pub fn expression(&self) -> (r: &String)
        ensures
            r@ == self@,
    {
        &self.0
    }
}

/// How links are pulled out of a page's markup: a CSS selector or an
/// XPath expression, each plain or with per-field sub-selectors under a
/// container.
#[derive(Debug, Clone)]
#[allow(inconsistent_fields)]
pub enum Extract {
    CSSPlain(String),
    CSSDetailed { container: String, href: String, text: String },
    XPathPlain(XPath),
    XPathDetailed { container: XPath, href: XPath, text: XPath },
}

/// One component of a key: its character count, a separator, then the
/// characters. The count makes the encoding unambiguous whatever the
/// component holds.
pub open spec fn spec_part(s: Seq<char>) -> Seq<char> {
    dec_str(s.len()) + ":"@ + s
}

/// The serialized form of an extraction spec, the page's dedup key
/// together with its URL: a variant tag, then each component in order.
pub open spec fn spec_extract_key(e: Extract) -> Seq<char> {
    match e {
        Extract::CSSPlain(s) => "css:"@ + spec_part(s@),
        Extract::CSSDetailed { container, href, text } => "cssd:"@ + spec_part(container@)
            + spec_part(href@) + spec_part(text@),
        Extract::XPathPlain(x) => "xpath:"@ + spec_part(x@),
        Extract::XPathDetailed { container, href, text } => "xpathd:"@ + spec_part(container@)
            + spec_part(href@) + spec_part(text@),
    }
}

/// A length-prefixed component and what follows it read back
/// unambiguously from the combined sequence: the count runs up to the
/// first separator, and the count says where the component ends.
pub proof fn lemma_part_unambiguous(s1: Seq<char>, r1: Seq<char>, s2: Seq<char>, r2: Seq<char>)
    requires
        spec_part(s1) + r1 == spec_part(s2) + r2,
    ensures
        s1 == s2,
        r1 == r2,
{
    let d1 = dec_str(s1.len());
    let d2 = dec_str(s2.len());
    lemma_dec_str_digits(s1.len());
    lemma_dec_str_digits(s2.len());
    lemma_dec_str_len(s1.len());
    lemma_dec_str_len(s2.len());
    reveal_strlit(":");
    assert(":"@.len() == 1);
    assert(":"@[0] == ':');
    let w = spec_part(s1) + r1;
    assert(w[d1.len() as int] == ':');
    assert(w == spec_part(s2) + r2);
    assert(w[d2.len() as int] == ':');
    if d1.len() < d2.len() {
        assert(w[d1.len() as int] == d2[d1.len() as int]);
        assert(is_digit_char(d2[d1.len() as int]));
        assert(false);
    }
    if d2.len() < d1.len() {
        assert(w[d2.len() as int] == d1[d2.len() as int]);
        assert(is_digit_char(d1[d2.len() as int]));
        assert(false);
    }
    let ghost dl = d1.len() as int;
    assert(d1 =~= d2) by {
        assert(forall|i: int| 0 <= i < dl ==> #[trigger] d1[i] == w[i]);
        assert(forall|i: int| 0 <= i < dl ==> #[trigger] d2[i] == w[i]);
    }
    lemma_dec_str_injective(s1.len(), s2.len());
    assert(s1 =~= s2) by {
        assert(forall|i: int| 0 <= i < s1.len() ==> #[trigger] s1[i] == w[dl + 1 + i]);
        assert(forall|i: int| 0 <= i < s2.len() ==> #[trigger] s2[i] == w[dl + 1 + i]);
    }
    assert(r1 =~= r2) by {
        let base = dl + 1 + s1.len() as int;
        assert(w.len() == base + r1.len() && w.len() == base + r2.len());
        assert(forall|i: int| 0 <= i < r1.len() ==> #[trigger] r1[i] == w[base + i]);
        assert(forall|i: int| 0 <= i < r2.len() ==> #[trigger] r2[i] == w[base + i]);
    }
}

/// Two extraction specs that read the same: the same variant over the
/// same selector or expression text.
pub open spec fn extract_equiv(e1: Extract, e2: Extract) -> bool {
    match (e1, e2) {
        (Extract::CSSPlain(a), Extract::CSSPlain(b)) => a@ == b@,
        (
            Extract::CSSDetailed { container: c1, href: h1, text: t1 },
            Extract::CSSDetailed { container: c2, href: h2, text: t2 },
        ) => c1@ == c2@ && h1@ == h2@ && t1@ == t2@,
        (Extract::XPathPlain(a), Extract::XPathPlain(b)) => a@ == b@,
        (
            Extract::XPathDetailed { container: c1, href: h1, text: t1 },
            Extract::XPathDetailed { container: c2, href: h2, text: t2 },
        ) => c1@ == c2@ && h1@ == h2@ && t1@ == t2@,
        _ => false,
    }
}

/// Store discrimination for extraction specs: the serialized key
/// determines the spec, so two specs that differ in kind or in text
/// never collide on one page key.
pub proof fn lemma_extract_key_injective(e1: Extract, e2: Extract)
    requires
        spec_extract_key(e1) == spec_extract_key(e2),
    ensures
        extract_equiv(e1, e2),
{
    reveal_strlit("css:");
    reveal_strlit("cssd:");
    reveal_strlit("xpath:");
    reveal_strlit("xpathd:");
    let w = spec_extract_key(e1);
    match (e1, e2) {
        (Extract::CSSPlain(a), Extract::CSSPlain(b)) => {
            let one = spec_part(a@) + Seq::<char>::empty();
            let two = spec_part(b@) + Seq::<char>::empty();
            assert(one =~= w.subrange(4, w.len() as int));
            assert(two =~= w.subrange(4, w.len() as int));
            lemma_part_unambiguous(a@, Seq::empty(), b@, Seq::empty());
        },
        (
            Extract::CSSDetailed { container: c1, href: h1, text: t1 },
            Extract::CSSDetailed { container: c2, href: h2, text: t2 },
        ) => {
            let one = spec_part(c1@) + (spec_part(h1@) + spec_part(t1@));
            let two = spec_part(c2@) + (spec_part(h2@) + spec_part(t2@));
            assert(one =~= w.subrange(5, w.len() as int));
            assert(two =~= w.subrange(5, w.len() as int));
            lemma_part_unambiguous(c1@, spec_part(h1@) + spec_part(t1@), c2@, spec_part(h2@)
                + spec_part(t2@));
            lemma_part_unambiguous(h1@, spec_part(t1@), h2@, spec_part(t2@));
            assert(spec_part(t1@) + Seq::<char>::empty() =~= spec_part(t1@));
            assert(spec_part(t2@) + Seq::<char>::empty() =~= spec_part(t2@));
            lemma_part_unambiguous(t1@, Seq::empty(), t2@, Seq::empty());
        },
        (Extract::XPathPlain(a), Extract::XPathPlain(b)) => {
            let one = spec_part(a@) + Seq::<char>::empty();
            let two = spec_part(b@) + Seq::<char>::empty();
            assert(one =~= w.subrange(6, w.len() as int));
            assert(two =~= w.subrange(6, w.len() as int));
            lemma_part_unambiguous(a@, Seq::empty(), b@, Seq::empty());
        },
        (
            Extract::XPathDetailed { container: c1, href: h1, text: t1 },
            Extract::XPathDetailed { container: c2, href: h2, text: t2 },
        ) => {
            let one = spec_part(c1@) + (spec_part(h1@) + spec_part(t1@));
            let two = spec_part(c2@) + (spec_part(h2@) + spec_part(t2@));
            assert(one =~= w.subrange(7, w.len() as int));
            assert(two =~= w.subrange(7, w.len() as int));
            lemma_part_unambiguous(c1@, spec_part(h1@) + spec_part(t1@), c2@, spec_part(h2@)
                + spec_part(t2@));
            lemma_part_unambiguous(h1@, spec_part(t1@), h2@, spec_part(t2@));
            assert(spec_part(t1@) + Seq::<char>::empty() =~= spec_part(t1@));
            assert(spec_part(t2@) + Seq::<char>::empty() =~= spec_part(t2@));
            lemma_part_unambiguous(t1@, Seq::empty(), t2@, Seq::empty());
        },
        (Extract::CSSPlain(_), Extract::CSSDetailed { .. }) => {
            assert(w[3] == ':' && w[3] == 'd');
        },
        (Extract::CSSDetailed { .. }, Extract::CSSPlain(_)) => {
            assert(w[3] == 'd' && w[3] == ':');
        },
        (Extract::XPathPlain(_), Extract::XPathDetailed { .. }) => {
            assert(w[5] == ':' && w[5] == 'd');
        },
        (Extract::XPathDetailed { .. }, Extract::XPathPlain(_)) => {
            assert(w[5] == 'd' && w[5] == ':');
        },
        (Extract::CSSPlain(_), Extract::XPathPlain(_)) => {
            assert(w[0] == 'c' && w[0] == 'x');
        },
        (Extract::CSSPlain(_), Extract::XPathDetailed { .. }) => {
            assert(w[0] == 'c' && w[0] == 'x');
        },
        (Extract::CSSDetailed { .. }, Extract::XPathPlain(_)) => {
            assert(w[0] == 'c' && w[0] == 'x');
        },
        (Extract::CSSDetailed { .. }, Extract::XPathDetailed { .. }) => {
            assert(w[0] == 'c' && w[0] == 'x');
        },
        (Extract::XPathPlain(_), Extract::CSSPlain(_)) => {
            assert(w[0] == 'x' && w[0] == 'c');
        },
        (Extract::XPathPlain(_), Extract::CSSDetailed { .. }) => {
            assert(w[0] == 'x' && w[0] == 'c');
        },
        (Extract::XPathDetailed { .. }, Extract::CSSPlain(_)) => {
            assert(w[0] == 'x' && w[0] == 'c');
        },
        (Extract::XPathDetailed { .. }, Extract::CSSDetailed { .. }) => {
            assert(w[0] == 'x' && w[0] == 'c');
        },
    }
}

/// Appends one length-prefixed component to the key being built.
fn push_part(out: &mut String, piece: &str)
    ensures
        final(out)@ == old(out)@ + spec_part(piece@),
{
    let n = piece.unicode_len();
    let numeral = u64_to_dec(n as u64);
    out.append(numeral.as_str());
    out.append(":");
    out.append(piece);
    proof {
        assert(out@ =~= old(out)@ + spec_part(piece@));
    }
}

impl Extract {
    /// Serializes the spec to its key string, exactly as specified.
    pub fn key_string(&self) -> (r: String)
        ensures
            r@ == spec_extract_key(*self),
    {
        let mut out = String::new();
        match self {
            Extract::CSSPlain(s) => {
                out.append("css:");
                push_part(&mut out, s.as_str());
            },
            Extract::CSSDetailed { container, href, text } => {
                out.append("cssd:");
                push_part(&mut out, container.as_str());
                push_part(&mut out, href.as_str());
                push_part(&mut out, text.as_str());
            },
            Extract::XPathPlain(x) => {
                out.append("xpath:");
                push_part(&mut out, x.expression().as_str());
            },
            Extract::XPathDetailed { container, href, text } => {
                out.append("xpathd:");
                push_part(&mut out, container.expression().as_str());
                push_part(&mut out, href.expression().as_str());
                push_part(&mut out, text.expression().as_str());
            },
        }
        proof {
            assert(out@ =~= spec_extract_key(*self));
        }
        out
    }
}

/// A page to watch: a label for reporting, the URL to fetch, and how to
/// pull links out of what comes back. Immutable for the lifetime of a run.
#[derive(Debug, Clone)]
pub struct Page {
    pub name: String,
    pub url: String,
    pub extract: Extract,
}

} // verus!
