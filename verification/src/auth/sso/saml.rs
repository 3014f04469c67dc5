//! SAML 2.0 client for the service-provider-initiated flow.
//!
//! The identity provider posts a Base64-encoded SAML response to our
//! assertion consumer service; the client reads the assertion's fields
//! with plain text search, checks the audience and the validity window and
//! collects the attributes.
//!
//! The XML signature is not verified: production deployments must verify
//! it against the provider's certificate before trusting any field.

use vstd::prelude::*;
use crate::auth::sso::codec::{
    decode_base64, base64_decoded, base64_encode, base64_spec, format_iso8601, hex_encode, hex_lower, iso8601_seconds,
    iso8601_text, parse_iso8601, utc_now_fields, utf8_text,
};
use crate::auth::sso::config::{SsoProviderConfig, SsoProviderKind};
use crate::auth::sso::error::SsoError;
use crate::scan::{chars_of, find_chars, find_from, lemma_find_from, string_of, trim, trimmed_string};
use crate::sys::{now_unix_seconds, random_bytes, unix_seconds_in_range};
use crate::text::{push_char, push_str, str_eq};

verus! {

/// A name and the values given for it.
pub type AttributeView = (Seq<char>, Seq<Seq<char>>);

/// The attributes of an assertion: each name once, with all its values,
/// in order of first appearance.
#[derive(Debug)]
pub struct SamlAttributes {
    /// (name, values) pairs.
    pub entries: Vec<(String, Vec<String>)>,
}

/// The attributes as values.
pub open spec fn attribute_views(e: Seq<(String, Vec<String>)>) -> Seq<AttributeView> {
    e.map_values(|p: (String, Vec<String>)| (p.0@, p.1@.map_values(|s: String| s@)))
}

impl SamlAttributes {
    /// The values of an attribute.
    pub fn get(&self, name: &str) -> (r: Option<&Vec<String>>)
        ensures
            match r {
                Some(v) => exists|i: int|
                    0 <= i < self.entries@.len() && self.entries@[i].0@ == name@ && self.entries@[i].1 == *v,
                None => forall|i: int| 0 <= i < self.entries@.len() ==> self.entries@[i].0@ != name@,
            },
    {
        let mut i: usize = 0;
        while i < self.entries.len()
            invariant
                i <= self.entries@.len(),
                forall|j: int| 0 <= j < i ==> self.entries@[j].0@ != name@,
            decreases self.entries@.len() - i,
        {
            if str_eq(self.entries[i].0.as_str(), name) {
                return Some(&self.entries[i].1);
            }
            i = i + 1;
        }
        None
    }

    /// Number of distinct attribute names.
    pub fn len(&self) -> (n: usize)
        ensures
            n == self.entries@.len(),
    {
        self.entries.len()
    }
}

/// An assertion read from a SAML response.
#[derive(Debug)]
pub struct SamlAssertion {
    /// Assertion id (the `ID` attribute of `<saml:Assertion>`).
    pub id: String,
    /// Issuer (identity provider entity id).
    pub issuer: String,
    /// Subject (`NameID`).
    pub subject: String,
    /// Audience (our entity id).
    pub audience: String,
    /// Start of validity (unix seconds).
    pub not_before: i64,
    /// End of validity, exclusive (unix seconds).
    pub not_on_or_after: i64,
    /// Authentication instant (unix seconds).
    pub authn_instant: i64,
    /// Session index (for single logout).
    pub session_index: String,
    /// Attributes (e.g. email, roles, groups).
    pub attributes: SamlAttributes,
}

/// An assertion as values.
pub struct SamlAssertionView {
    pub id: Seq<char>,
    pub issuer: Seq<char>,
    pub subject: Seq<char>,
    pub audience: Seq<char>,
    pub not_before: i64,
    pub not_on_or_after: i64,
    pub authn_instant: i64,
    pub session_index: Seq<char>,
    pub attributes: Seq<AttributeView>,
}

impl View for SamlAssertion {
    type V = SamlAssertionView;

    open spec fn view(&self) -> SamlAssertionView {
        SamlAssertionView {
            id: self.id@,
            issuer: self.issuer@,
            subject: self.subject@,
            audience: self.audience@,
            not_before: self.not_before,
            not_on_or_after: self.not_on_or_after,
            authn_instant: self.authn_instant,
            session_index: self.session_index@,
            attributes: attribute_views(self.attributes.entries@),
        }
    }
}

// ------------------------------------------------------------ text search

/// The opening-tag patterns tried for an attribute, in order.
pub open spec fn attr_open_patterns(tag: Seq<char>) -> Seq<Seq<char>> {
    seq![
        "<saml:"@ + tag + " "@,
        "<saml:"@ + tag + ">"@,
        "<samlp:"@ + tag + " "@,
        "<samlp:"@ + tag + ">"@,
        "<"@ + tag + " "@,
        "<"@ + tag + ">"@,
    ]
}

/// The opening-tag patterns tried for a text element, in order.
pub open spec fn text_open_patterns(tag: Seq<char>) -> Seq<Seq<char>> {
    seq![
        "<saml:"@ + tag + ">"@,
        "<saml:"@ + tag + " "@,
        "<samlp:"@ + tag + ">"@,
        "<samlp:"@ + tag + " "@,
        "<"@ + tag + ">"@,
        "<"@ + tag + " "@,
    ]
}

/// The closing-tag patterns tried for a text element, in order.
pub open spec fn text_close_patterns(tag: Seq<char>) -> Seq<Seq<char>> {
    seq!["</saml:"@ + tag + ">"@, "</samlp:"@ + tag + ">"@, "</"@ + tag + ">"@]
}

/// The value of attribute `key` (written `name="`) in the first element
/// that `open` starts: the text up to the next `"`.
pub open spec fn attr_after_open(xml: Seq<char>, open: Seq<char>, key: Seq<char>) -> Option<Seq<char>> {
    match find_from(xml, open, 0) {
        None => None,
        Some(p) => match find_from(xml, ">"@, p) {
            None => None,
            Some(g) => {
                let elem = xml.subrange(p, g);
                match find_from(elem, key, 0) {
                    None => None,
                    Some(a) => match find_from(elem, "\""@, a + key.len()) {
                        None => None,
                        Some(e) => Some(elem.subrange(a + key.len(), e)),
                    },
                }
            },
        },
    }
}

/// The first value found with the opening patterns tried in order.
pub open spec fn first_attr(xml: Seq<char>, opens: Seq<Seq<char>>, key: Seq<char>) -> Option<Seq<char>>
    decreases opens.len(),
{
    if opens.len() == 0 {
        None
    } else {
        match attr_after_open(xml, opens[0], key) {
            Some(v) => Some(v),
            None => first_attr(xml, opens.drop_first(), key),
        }
    }
}

/// The value of attribute `attr` of the element `tag`.
pub open spec fn extract_attr_spec(xml: Seq<char>, tag: Seq<char>, attr: Seq<char>) -> Option<Seq<char>> {
    first_attr(xml, attr_open_patterns(tag), attr + "=\""@)
}

/// The trimmed text from `start` to the first closing pattern, tried in
/// order.
pub open spec fn first_close(xml: Seq<char>, start: int, closes: Seq<Seq<char>>) -> Option<Seq<char>>
    decreases closes.len(),
{
    if closes.len() == 0 {
        None
    } else {
        match find_from(xml, closes[0], start) {
            Some(c) => Some(trim(xml.subrange(start, c))),
            None => first_close(xml, start, closes.drop_first()),
        }
    }
}

/// The text of the first element that `open` starts.
pub open spec fn text_after_open(xml: Seq<char>, open: Seq<char>, closes: Seq<Seq<char>>) -> Option<Seq<char>> {
    match find_from(xml, open, 0) {
        None => None,
        Some(p) => match find_from(xml, ">"@, p) {
            None => None,
            Some(g) => first_close(xml, g + 1, closes),
        },
    }
}

/// The first text found with the opening patterns tried in order.
pub open spec fn first_text(xml: Seq<char>, opens: Seq<Seq<char>>, closes: Seq<Seq<char>>) -> Option<Seq<char>>
    decreases opens.len(),
{
    if opens.len() == 0 {
        None
    } else {
        match text_after_open(xml, opens[0], closes) {
            Some(v) => Some(v),
            None => first_text(xml, opens.drop_first(), closes),
        }
    }
}

/// The trimmed text of the element `tag`.
pub open spec fn extract_text_spec(xml: Seq<char>, tag: Seq<char>) -> Option<Seq<char>> {
    first_text(xml, text_open_patterns(tag), text_close_patterns(tag))
}

fn sub_chars(v: &Vec<char>, start: usize, end: usize) -> (r: Vec<char>)
    requires
        start <= end <= v@.len(),
    ensures
        r@ == v@.subrange(start as int, end as int),
{
    let mut r: Vec<char> = Vec::new();
    let mut i = start;
    while i < end
        invariant
            start <= i <= end <= v@.len(),
            r@ == v@.subrange(start as int, i as int),
        decreases end - i,
    {
        r.push(v[i]);
        assert(r@ =~= v@.subrange(start as int, i + 1));
        i = i + 1;
    }
    r
}

fn pattern(prefix: &str, tag: &str, suffix: &str) -> (p: Vec<char>)
    ensures
        p@ == prefix@ + tag@ + suffix@,
{
    let mut s = String::new();
    push_str(&mut s, prefix);
    push_str(&mut s, tag);
    push_str(&mut s, suffix);
    chars_of(s.as_str())
}

fn attr_after_open_exec(xml: &Vec<char>, open: &Vec<char>, key: &Vec<char>) -> (r: Option<String>)
    ensures
        match r {
            Some(s) => attr_after_open(xml@, open@, key@) == Some(s@),
            None => attr_after_open(xml@, open@, key@) is None,
        },
{
    let p = match find_chars(xml, open, 0) {
        Some(p) => p,
        None => {
            return None;
        },
    };
    let gt = vec!['>'];
    proof {
        reveal_strlit(">");
        assert(gt@ =~= ">"@);
    }
    let g = match find_chars(xml, &gt, p) {
        Some(g) => g,
        None => {
            return None;
        },
    };
    proof {
        lemma_find_from(xml@, gt@, p as int);
    }
    let elem = sub_chars(xml, p, g);
    let a = match find_chars(&elem, key, 0) {
        Some(a) => a,
        None => {
            return None;
        },
    };
    proof {
        lemma_find_from(elem@, key@, 0);
    }
    let quote = vec!['"'];
    proof {
        reveal_strlit("\"");
        assert(quote@ =~= "\""@);
    }
    let en = elem.len();
    let start = a + key.len();
    let e = match find_chars(&elem, &quote, start) {
        Some(e) => e,
        None => {
            return None;
        },
    };
    proof {
        lemma_find_from(elem@, quote@, start as int);
    }
    Some(string_of(&elem, start, e))
}

/// The value of attribute `attr` of the element `tag`, trying the
/// namespace prefixes `saml:`, `samlp:` and none.
pub fn extract_attr(xml: &Vec<char>, tag: &str, attr: &str) -> (r: Option<String>)
    ensures
        match r {
            Some(s) => extract_attr_spec(xml@, tag@, attr@) == Some(s@),
            None => extract_attr_spec(xml@, tag@, attr@) is None,
        },
{
    let key = pattern(attr, "", "=\"");
    let opens: Vec<Vec<char>> = vec![
        pattern("<saml:", tag, " "),
        pattern("<saml:", tag, ">"),
        pattern("<samlp:", tag, " "),
        pattern("<samlp:", tag, ">"),
        pattern("<", tag, " "),
        pattern("<", tag, ">"),
    ];
    proof {
        reveal_strlit("");
        assert(key@ =~= attr@ + "=\""@);
        assert(opens@.map_values(|p: Vec<char>| p@) =~= attr_open_patterns(tag@));
    }
    let ghost pats = opens@.map_values(|p: Vec<char>| p@);
    assert(pats.skip(0) =~= pats);
    let mut i: usize = 0;
    while i < opens.len()
        invariant
            i <= opens@.len(),
            pats == opens@.map_values(|p: Vec<char>| p@),
            pats.len() == opens@.len(),
            extract_attr_spec(xml@, tag@, attr@) == first_attr(xml@, pats.skip(i as int), key@),
        decreases opens@.len() - i,
    {
        let ghost rest = pats.skip(i as int);
        assert(rest[0] == opens@[i as int]@);
        assert(rest.drop_first() =~= pats.skip(i + 1));
        match attr_after_open_exec(xml, &opens[i], &key) {
            Some(v) => {
                assert(first_attr(xml@, rest, key@) == Some(v@));
                return Some(v);
            },
            None => {},
        }
        i = i + 1;
    }
    assert(pats.skip(i as int).len() == 0);
    None
}

fn text_after_open_exec(xml: &Vec<char>, open: &Vec<char>, closes: &Vec<Vec<char>>) -> (r: Option<String>)
    ensures
        match r {
            Some(s) => text_after_open(xml@, open@, closes@.map_values(|p: Vec<char>| p@)) == Some(s@),
            None => text_after_open(xml@, open@, closes@.map_values(|p: Vec<char>| p@)) is None,
        },
{
    let p = match find_chars(xml, open, 0) {
        Some(p) => p,
        None => {
            return None;
        },
    };
    let gt = vec!['>'];
    proof {
        reveal_strlit(">");
        assert(gt@ =~= ">"@);
    }
    let g = match find_chars(xml, &gt, p) {
        Some(g) => g,
        None => {
            return None;
        },
    };
    proof {
        lemma_find_from(xml@, gt@, p as int);
    }
    let xn = xml.len();
    let start = g + 1;
    let ghost cs = closes@.map_values(|p: Vec<char>| p@);
    assert(cs.skip(0) =~= cs);
    let mut i: usize = 0;
    while i < closes.len()
        invariant
            i <= closes@.len(),
            start <= xml@.len(),
            cs == closes@.map_values(|p: Vec<char>| p@),
            text_after_open(xml@, open@, cs) == first_close(xml@, start as int, cs.skip(i as int)),
        decreases closes@.len() - i,
    {
        let ghost rest = cs.skip(i as int);
        assert(rest[0] == closes@[i as int]@);
        assert(rest.drop_first() =~= cs.skip(i + 1));
        match find_chars(xml, &closes[i], start) {
            Some(c) => {
                proof {
                    lemma_find_from(xml@, closes@[i as int]@, start as int);
                }
                let t = trimmed_string(xml, start, c);
                assert(first_close(xml@, start as int, rest) == Some(t@));
                return Some(t);
            },
            None => {},
        }
        i = i + 1;
    }
    assert(cs.skip(i as int).len() == 0);
    None
}

/// The trimmed text of the element `tag`, trying the namespace prefixes
/// `saml:`, `samlp:` and none.
pub fn extract_text(xml: &Vec<char>, tag: &str) -> (r: Option<String>)
    ensures
        match r {
            Some(s) => extract_text_spec(xml@, tag@) == Some(s@),
            None => extract_text_spec(xml@, tag@) is None,
        },
{
    let opens: Vec<Vec<char>> = vec![
        pattern("<saml:", tag, ">"),
        pattern("<saml:", tag, " "),
        pattern("<samlp:", tag, ">"),
        pattern("<samlp:", tag, " "),
        pattern("<", tag, ">"),
        pattern("<", tag, " "),
    ];
    let closes: Vec<Vec<char>> = vec![pattern("</saml:", tag, ">"), pattern("</samlp:", tag, ">"), pattern("</", tag, ">")];
    proof {
        assert(opens@.map_values(|p: Vec<char>| p@) =~= text_open_patterns(tag@));
        assert(closes@.map_values(|p: Vec<char>| p@) =~= text_close_patterns(tag@));
    }
    let ghost pats = opens@.map_values(|p: Vec<char>| p@);
    let ghost cs = closes@.map_values(|p: Vec<char>| p@);
    assert(pats.skip(0) =~= pats);
    let mut i: usize = 0;
    while i < opens.len()
        invariant
            i <= opens@.len(),
            pats == opens@.map_values(|p: Vec<char>| p@),
            cs == closes@.map_values(|p: Vec<char>| p@),
            pats.len() == opens@.len(),
            extract_text_spec(xml@, tag@) == first_text(xml@, pats.skip(i as int), cs),
        decreases opens@.len() - i,
    {
        let ghost rest = pats.skip(i as int);
        assert(rest[0] == opens@[i as int]@);
        assert(rest.drop_first() =~= pats.skip(i + 1));
        match text_after_open_exec(xml, &opens[i], &closes) {
            Some(v) => {
                assert(first_text(xml@, rest, cs) == Some(v@));
                return Some(v);
            },
            None => {},
        }
        i = i + 1;
    }
    assert(pats.skip(i as int).len() == 0);
    None
}

// ------------------------------------------------------------ attributes

/// Where an attribute element starts.
pub open spec fn attribute_open() -> Seq<char> {
    "<saml:Attribute Name=\""@
}

/// Where an attribute element ends.
pub open spec fn attribute_close() -> Seq<char> {
    "</saml:Attribute>"@
}

/// Where an attribute value starts.
pub open spec fn value_open() -> Seq<char> {
    "<saml:AttributeValue>"@
}

/// Where an attribute value ends.
pub open spec fn value_close() -> Seq<char> {
    "</saml:AttributeValue>"@
}

/// The trimmed values of `v` from position `from` on: the texts between
/// value tags, until a value tag is not closed.
pub open spec fn attribute_values(v: Seq<char>, from: int) -> Seq<Seq<char>>
    decreases v.len() - from,
    when 0 <= from
{
    match find_from(v, value_open(), from) {
        None => Seq::empty(),
        Some(sp) => {
            let ts = sp + value_open().len();
            match find_from(v, value_close(), ts) {
                None => Seq::empty(),
                Some(ep) => {
                    proof {
                        reveal_strlit("<saml:AttributeValue>");
                        reveal_strlit("</saml:AttributeValue>");
                        lemma_find_from(v, value_open(), from);
                        lemma_find_from(v, value_close(), ts);
                    }
                    seq![trim(v.subrange(ts, ep))] + attribute_values(v, ep + value_close().len())
                },
            }
        },
    }
}

/// The attribute elements of `xml` from position `from` on, as (name,
/// values), in order, until one is not complete.
pub open spec fn attribute_entries(xml: Seq<char>, from: int) -> Seq<AttributeView>
    decreases xml.len() - from,
    when 0 <= from
{
    match find_from(xml, attribute_open(), from) {
        None => Seq::empty(),
        Some(abs) => {
            let ns = abs + attribute_open().len();
            match find_from(xml, "\""@, ns) {
                None => Seq::empty(),
                Some(ne) => match find_from(xml, attribute_close(), ne) {
                    None => Seq::empty(),
                    Some(ve) => {
                        proof {
                            reveal_strlit("<saml:Attribute Name=\"");
                            reveal_strlit("</saml:Attribute>");
                            reveal_strlit("\"");
                            lemma_find_from(xml, attribute_open(), from);
                            lemma_find_from(xml, "\""@, ns);
                            lemma_find_from(xml, attribute_close(), ne);
                        }
                        seq![(xml.subrange(ns, ne), attribute_values(xml.subrange(ne, ve), 0))] + attribute_entries(
                            xml,
                            ve + attribute_close().len(),
                        )
                    },
                },
            }
        },
    }
}

/// Whether no attribute name occurs twice.
pub open spec fn names_distinct(acc: Seq<AttributeView>) -> bool {
    forall|i: int, j: int| 0 <= i < j < acc.len() ==> acc[i].0 != acc[j].0
}

/// `acc` with `values` added to attribute `name` (a new name goes last).
pub open spec fn merge_one(acc: Seq<AttributeView>, name: Seq<char>, values: Seq<Seq<char>>) -> Seq<AttributeView> {
    if exists|k: int| 0 <= k < acc.len() && acc[k].0 == name {
        let k = choose|k: int| 0 <= k < acc.len() && acc[k].0 == name;
        acc.update(k, (name, acc[k].1 + values))
    } else {
        acc.push((name, values))
    }
}

/// The entries merged by name, in order of first appearance.
pub open spec fn merge_entries(entries: Seq<AttributeView>) -> Seq<AttributeView>
    decreases entries.len(),
{
    if entries.len() == 0 {
        Seq::empty()
    } else {
        merge_one(merge_entries(entries.drop_last()), entries.last().0, entries.last().1)
    }
}

/// The attributes of an assertion's XML.
pub open spec fn attributes_spec(xml: Seq<char>) -> Seq<AttributeView> {
    merge_entries(attribute_entries(xml, 0))
}

fn literal_chars(s: &str) -> (v: Vec<char>)
    ensures
        v@ == s@,
{
    chars_of(s)
}

fn collect_values(v: &Vec<char>) -> (r: Vec<String>)
    ensures
        r@.map_values(|s: String| s@) == attribute_values(v@, 0),
{
    let open = literal_chars("<saml:AttributeValue>");
    let close = literal_chars("</saml:AttributeValue>");
    let mut out: Vec<String> = Vec::new();
    let vn = v.len();
    let mut sc: usize = 0;
    assert(out@.map_values(|s: String| s@) + attribute_values(v@, sc as int) =~= attribute_values(v@, 0));
    loop
        invariant
            open@ == value_open(),
            close@ == value_close(),
            vn == v@.len(),
            sc <= v@.len(),
            out@.map_values(|s: String| s@) + attribute_values(v@, sc as int) == attribute_values(v@, 0),
        decreases v@.len() - sc,
    {
        let sp = match find_chars(v, &open, sc) {
            Some(sp) => sp,
            None => {
                assert(out@.map_values(|s: String| s@) =~= attribute_values(v@, 0));
                return out;
            },
        };
        proof {
            lemma_find_from(v@, open@, sc as int);
        }
        let ts = sp + open.len();
        let ep = match find_chars(v, &close, ts) {
            Some(ep) => ep,
            None => {
                assert(out@.map_values(|s: String| s@) =~= attribute_values(v@, 0));
                return out;
            },
        };
        proof {
            lemma_find_from(v@, close@, ts as int);
        }
        let ghost before = out@.map_values(|s: String| s@);
        let t = trimmed_string(v, ts, ep);
        out.push(t);
        let next = ep + close.len();
        proof {
            assert(attribute_values(v@, sc as int) == seq![trim(v@.subrange(ts as int, ep as int))] + attribute_values(
                v@,
                next as int,
            ));
            assert(out@.map_values(|s: String| s@) =~= before.push(trim(v@.subrange(ts as int, ep as int))));
            assert(out@.map_values(|s: String| s@) + attribute_values(v@, next as int) =~= before
                + attribute_values(v@, sc as int));
        }
        sc = next;
    }
}

fn find_name(acc: &Vec<(String, Vec<String>)>, name: &str) -> (k: usize)
    ensures
        k <= acc@.len(),
        k < acc@.len() ==> attribute_views(acc@)[k as int].0 == name@,
        forall|j: int| 0 <= j < k ==> #[trigger] attribute_views(acc@)[j].0 != name@,
{
    let mut k: usize = 0;
    while k < acc.len()
        invariant
            k <= acc@.len(),
            forall|j: int| 0 <= j < k ==> #[trigger] attribute_views(acc@)[j].0 != name@,
        decreases acc@.len() - k,
    {
        if str_eq(acc[k].0.as_str(), name) {
            return k;
        }
        k = k + 1;
    }
    k
}

fn merge_into(acc: &mut Vec<(String, Vec<String>)>, name: String, values: Vec<String>)
    requires
        names_distinct(attribute_views(old(acc)@)),
    ensures
        names_distinct(attribute_views(final(acc)@)),
        attribute_views(final(acc)@) == merge_one(
            attribute_views(old(acc)@),
            name@,
            values@.map_values(|s: String| s@),
        ),
{
    let ghost a = attribute_views(acc@);
    let ghost vs = values@.map_values(|s: String| s@);
    let k = find_name(acc, name.as_str());
    if k < acc.len() {
        assert(a[k as int].0 == name@);
        let mut vals = crate::text::copy_strings(&acc[k].1);
        let ghost first_vals = vals@.map_values(|s: String| s@);
        let mut j: usize = 0;
        while j < values.len()
            invariant
                j <= values@.len(),
                vals@.map_values(|s: String| s@) == first_vals + vs.take(j as int),
                vs == values@.map_values(|s: String| s@),
            decreases values@.len() - j,
        {
            let x = values[j].clone();
            let ghost before = vals@.map_values(|s: String| s@);
            vals.push(x);
            assert(vs[j as int] == values@[j as int]@);
            assert(vals@.map_values(|s: String| s@) =~= before.push(x@));
            assert(vs.take(j + 1) =~= vs.take(j as int).push(vs[j as int]));
            assert(vals@.map_values(|s: String| s@) =~= first_vals + vs.take(j + 1));
            j = j + 1;
        }
        assert(vs.take(values@.len() as int) =~= vs);
        proof {
            let c = choose|c: int| 0 <= c < a.len() && a[c].0 == name@;
            if c != k {
                assert(a[c].0 != a[k as int].0);
            }
        }
        acc.set(k, (name, vals));
        assert(attribute_views(acc@) =~= a.update(k as int, (name@, a[k as int].1 + vs)));
    } else {
        acc.push((name, values));
        assert(attribute_views(acc@) =~= a.push((name@, vs)));
    }
}

/// The attributes of an assertion: every `<saml:Attribute Name="...">`
/// element with the trimmed texts of its `<saml:AttributeValue>` elements,
/// merged by name.
pub fn extract_attributes(xml: &Vec<char>) -> (r: SamlAttributes)
    ensures
        attribute_views(r.entries@) == attributes_spec(xml@),
{
    let open = literal_chars("<saml:Attribute Name=\"");
    let close = literal_chars("</saml:Attribute>");
    let quote = literal_chars("\"");
    let mut out: Vec<(String, Vec<String>)> = Vec::new();
    let xn = xml.len();
    let ghost all = attribute_entries(xml@, 0);
    let ghost mut done: Seq<AttributeView> = Seq::empty();
    let mut cursor: usize = 0;
    assert(done + attribute_entries(xml@, cursor as int) =~= all);
    assert(attribute_views(out@) =~= merge_entries(done));
    loop
        invariant
            open@ == attribute_open(),
            close@ == attribute_close(),
            quote@ == "\""@,
            all == attribute_entries(xml@, 0),
            xn == xml@.len(),
            cursor <= xml@.len(),
            done + attribute_entries(xml@, cursor as int) == all,
            attribute_views(out@) == merge_entries(done),
            names_distinct(attribute_views(out@)),
        decreases xml@.len() - cursor,
    {
        let abs = match find_chars(xml, &open, cursor) {
            Some(a) => a,
            None => {
                assert(done =~= all);
                return SamlAttributes { entries: out };
            },
        };
        proof {
            lemma_find_from(xml@, open@, cursor as int);
        }
        let name_start = abs + open.len();
        let name_end = match find_chars(xml, &quote, name_start) {
            Some(e) => e,
            None => {
                assert(done =~= all);
                return SamlAttributes { entries: out };
            },
        };
        proof {
            lemma_find_from(xml@, quote@, name_start as int);
        }
        let value_end = match find_chars(xml, &close, name_end) {
            Some(e) => e,
            None => {
                assert(done =~= all);
                return SamlAttributes { entries: out };
            },
        };
        proof {
            lemma_find_from(xml@, close@, name_end as int);
        }
        let name = string_of(xml, name_start, name_end);
        let value_xml = sub_chars(xml, name_end, value_end);
        let values = collect_values(&value_xml);
        let ghost entry = (name@, values@.map_values(|s: String| s@));
        let next = value_end + close.len();
        proof {
            assert(attribute_entries(xml@, cursor as int) == seq![entry] + attribute_entries(xml@, next as int));
            assert(done.push(entry).drop_last() =~= done);
        }
        merge_into(&mut out, name, values);
        proof {
            assert(done.push(entry) + attribute_entries(xml@, next as int) =~= done + attribute_entries(
                xml@,
                cursor as int,
            ));
            done = done.push(entry);
        }
        cursor = next;
    }
}

// ------------------------------------------------------------ responses

/// A timestamp attribute in unix seconds, or `default` when it is absent
/// or unreadable.
pub open spec fn time_attr(xml: Seq<char>, tag: Seq<char>, attr: Seq<char>, default: i64) -> i64 {
    match extract_attr_spec(xml, tag, attr) {
        Some(v) => match iso8601_seconds(vstd::utf8::encode_utf8(v)) {
            Some(t) => t,
            None => default,
        },
        None => default,
    }
}

/// What reading an assertion's XML gives for our entity id `sp` at time
/// `now`: the assertion, or the reason it is refused.
pub open spec fn assertion_outcome(xml: Seq<char>, sp: Seq<char>, now: i64, r: Result<SamlAssertionView, SsoErrorView>) -> bool {
    let id = extract_attr_spec(xml, "Assertion"@, "ID"@);
    let issuer = extract_text_spec(xml, "Issuer"@);
    let subject = extract_text_spec(xml, "NameID"@);
    let audience = extract_text_spec(xml, "Audience"@);
    let not_before = time_attr(xml, "Conditions"@, "NotBefore"@, 0);
    let not_on_or_after = time_attr(xml, "Conditions"@, "NotOnOrAfter"@, i64::MAX);
    if id is None {
        r == Err::<SamlAssertionView, SsoErrorView>(SsoErrorView::Invalid("missing Assertion ID"@))
    } else if issuer is None {
        r == Err::<SamlAssertionView, SsoErrorView>(SsoErrorView::Invalid("missing Issuer"@))
    } else if subject is None {
        r == Err::<SamlAssertionView, SsoErrorView>(SsoErrorView::Invalid("missing NameID"@))
    } else if audience is None {
        r == Err::<SamlAssertionView, SsoErrorView>(SsoErrorView::Invalid("missing Audience"@))
    } else if audience->0 != sp {
        r == Err::<SamlAssertionView, SsoErrorView>(
            SsoErrorView::Invalid("audience mismatch: expected "@ + sp + ", got "@ + audience->0),
        )
    } else if now < not_before {
        r == Err::<SamlAssertionView, SsoErrorView>(SsoErrorView::Invalid("assertion not yet valid"@))
    } else if now >= not_on_or_after {
        r == Err::<SamlAssertionView, SsoErrorView>(SsoErrorView::Expired)
    } else {
        r == Ok::<SamlAssertionView, SsoErrorView>(
            SamlAssertionView {
                id: id->0,
                issuer: issuer->0,
                subject: subject->0,
                audience: audience->0,
                not_before,
                not_on_or_after,
                authn_instant: time_attr(xml, "AuthnStatement"@, "AuthnInstant"@, 0),
                session_index: match extract_attr_spec(xml, "AuthnStatement"@, "SessionIndex"@) {
                    Some(s) => s,
                    None => Seq::empty(),
                },
                attributes: attributes_spec(xml),
            },
        )
    }
}

/// The errors that reading a response gives, as values.
pub enum SsoErrorView {
    /// `SsoError::SamlResponseInvalid` with its message.
    Invalid(Seq<char>),
    /// `SsoError::SamlExpired`.
    Expired,
    /// Any other error.
    Other,
}

/// An error as values.
pub open spec fn error_view(e: SsoError) -> SsoErrorView {
    match e {
        SsoError::SamlResponseInvalid(m) => SsoErrorView::Invalid(m@),
        SsoError::SamlExpired => SsoErrorView::Expired,
        _ => SsoErrorView::Other,
    }
}

/// A result as values.
pub open spec fn result_view(r: Result<SamlAssertion, SsoError>) -> Result<SamlAssertionView, SsoErrorView> {
    match r {
        Ok(a) => Ok(a@),
        Err(e) => Err(error_view(e)),
    }
}

fn invalid(msg: &str) -> (e: SsoError)
    ensures
        error_view(e) == SsoErrorView::Invalid(msg@),
{
    SsoError::SamlResponseInvalid(msg.to_owned())
}

fn time_attr_exec(xml: &Vec<char>, tag: &str, attr: &str, default: i64) -> (t: i64)
    ensures
        t == time_attr(xml@, tag@, attr@, default),
{
    match extract_attr(xml, tag, attr) {
        Some(v) => match parse_iso8601(v.as_str()) {
            Some(t) => t,
            None => default,
        },
        None => default,
    }
}

/// Read an assertion from the XML of a SAML response for our entity id
/// `sp`, at time `now` (unix seconds).
pub fn parse_assertion_at(xml_text: &str, sp: &str, now: i64) -> (r: Result<SamlAssertion, SsoError>)
    ensures
        assertion_outcome(xml_text@, sp@, now, result_view(r)),
{
    let xml = chars_of(xml_text);
    proof {
        reveal_strlit("Assertion");
        reveal_strlit("ID");
    }
    let id = match extract_attr(&xml, "Assertion", "ID") {
        Some(v) => v,
        None => {
            return Err(invalid("missing Assertion ID"));
        },
    };
    let issuer = match extract_text(&xml, "Issuer") {
        Some(v) => v,
        None => {
            return Err(invalid("missing Issuer"));
        },
    };
    let subject = match extract_text(&xml, "NameID") {
        Some(v) => v,
        None => {
            return Err(invalid("missing NameID"));
        },
    };
    let audience = match extract_text(&xml, "Audience") {
        Some(v) => v,
        None => {
            return Err(invalid("missing Audience"));
        },
    };
    let not_before = time_attr_exec(&xml, "Conditions", "NotBefore", 0);
    let not_on_or_after = time_attr_exec(&xml, "Conditions", "NotOnOrAfter", i64::MAX);
    let authn_instant = time_attr_exec(&xml, "AuthnStatement", "AuthnInstant", 0);
    let session_index = match extract_attr(&xml, "AuthnStatement", "SessionIndex") {
        Some(v) => v,
        None => String::new(),
    };
    if !str_eq(audience.as_str(), sp) {
        let mut msg = "audience mismatch: expected ".to_owned();
        push_str(&mut msg, sp);
        push_str(&mut msg, ", got ");
        push_str(&mut msg, audience.as_str());
        return Err(SsoError::SamlResponseInvalid(msg));
    }
    if now < not_before {
        return Err(invalid("assertion not yet valid"));
    }
    if now >= not_on_or_after {
        return Err(SsoError::SamlExpired);
    }
    let attributes = extract_attributes(&xml);
    Ok(
        SamlAssertion {
            id,
            issuer,
            subject,
            audience,
            not_before,
            not_on_or_after,
            authn_instant,
            session_index,
            attributes,
        },
    )
}

// ------------------------------------------------------------ client

/// Text of an optional string; empty when absent.
pub open spec fn text_or_empty(o: Option<String>) -> Seq<char> {
    match o {
        Some(s) => s@,
        None => Seq::empty(),
    }
}

/// The `<samlp:AuthnRequest>` document.
pub open spec fn authn_request_xml(
    id: Seq<char>,
    instant: Seq<char>,
    destination: Seq<char>,
    acs_url: Seq<char>,
    issuer: Seq<char>,
) -> Seq<char> {
    "<?xml version=\"1.0\" encoding=\"UTF-8\"?>\n<samlp:AuthnRequest xmlns:samlp=\"urn:oasis:names:tc:SAML:2.0:protocol\"\n                    ID=\""@
        + id + "\"\n                    Version=\"2.0\"\n                    IssueInstant=\""@ + instant
        + "\"\n                    Destination=\""@ + destination
        + "\"\n                    AssertionConsumerServiceURL=\""@ + acs_url
        + "\">\n  <saml:Issuer xmlns:saml=\"urn:oasis:names:tc:SAML:2.0:assertion\">"@ + issuer
        + "</saml:Issuer>\n</samlp:AuthnRequest>"@
}

/// The redirect URL for a request with random bytes `rnd` issued at
/// `now`: the request's UTF-8 bytes in Base64 as `SAMLRequest` parameter.
pub open spec fn authn_request_url(cfg: SsoProviderConfig, rnd: Seq<u8>, now: (i32, u8, u8, u8, u8, u8)) -> Seq<char> {
    let sso = text_or_empty(cfg.saml_sso_url);
    let xml = authn_request_xml(
        seq!['_'] + hex_lower(rnd),
        iso8601_text(now),
        sso,
        text_or_empty(cfg.saml_sp_acs_url),
        text_or_empty(cfg.saml_sp_entity_id),
    );
    sso + "?SAMLRequest="@ + base64_spec(vstd::utf8::encode_utf8(xml))
}

/// Whether a configuration has everything the SAML client needs.
pub open spec fn saml_ready(c: SsoProviderConfig) -> bool {
    &&& c.kind == SsoProviderKind::Saml
    &&& c.saml_sso_url is Some
    &&& c.saml_idp_certificate is Some
    &&& c.saml_sp_entity_id is Some
    &&& c.saml_sp_acs_url is Some
}

/// The reason a configuration is refused, checked in this order.
pub open spec fn saml_config_problem(c: SsoProviderConfig) -> Seq<char> {
    if c.kind != SsoProviderKind::Saml {
        "not a SAML provider"@
    } else if c.saml_sso_url is None {
        "missing saml_sso_url"@
    } else if c.saml_idp_certificate is None {
        "missing saml_idp_certificate"@
    } else if c.saml_sp_entity_id is None {
        "missing saml_sp_entity_id"@
    } else {
        "missing saml_sp_acs_url"@
    }
}

/// The SAML client of one provider.
#[derive(Debug)]
pub struct SamlClient {
    config: SsoProviderConfig,
}

impl SamlClient {
    /// The provider configuration has everything SAML needs.
    #[verifier::type_invariant]
    pub closed spec fn inv(&self) -> bool {
        saml_ready(self.config)
    }

    /// The provider configuration.
    pub closed spec fn cfg(&self) -> SsoProviderConfig {
        self.config
    }

    /// A client for a SAML provider with an SSO endpoint, a certificate,
    /// an entity id and an assertion consumer service URL.
    pub fn new(config: SsoProviderConfig) -> (r: Result<SamlClient, SsoError>)
        ensures
            match r {
                Ok(c) => saml_ready(config) && c.cfg() == config,
                Err(SsoError::ProviderNotConfigured(m)) => !saml_ready(config) && m@ == saml_config_problem(config),
                Err(_) => false,
            },
    {
        if config.kind != SsoProviderKind::Saml {
            return Err(SsoError::ProviderNotConfigured("not a SAML provider".to_owned()));
        }
        if config.saml_sso_url.is_none() {
            return Err(SsoError::ProviderNotConfigured("missing saml_sso_url".to_owned()));
        }
        if config.saml_idp_certificate.is_none() {
            return Err(SsoError::ProviderNotConfigured("missing saml_idp_certificate".to_owned()));
        }
        if config.saml_sp_entity_id.is_none() {
            return Err(SsoError::ProviderNotConfigured("missing saml_sp_entity_id".to_owned()));
        }
        if config.saml_sp_acs_url.is_none() {
            return Err(SsoError::ProviderNotConfigured("missing saml_sp_acs_url".to_owned()));
        }
        Ok(SamlClient { config })
    }

    /// The provider configuration.
    pub fn config(&self) -> (c: &SsoProviderConfig)
        ensures
            *c == self.cfg(),
    {
        &self.config
    }

    /// The redirect URL of an authentication request: the SSO endpoint
    /// with the Base64 request document as `SAMLRequest`, the document
    /// carrying a random id (`_` and 32 hexadecimal digits) and the current
    /// time.
    pub fn build_authn_request_url(&self) -> (r: Result<String, SsoError>)
        ensures
            match r {
                Ok(url) => exists|rnd: Seq<u8>, now: (i32, u8, u8, u8, u8, u8)|
                    rnd.len() == 16 && url@ == #[trigger] authn_request_url(self.cfg(), rnd, now),
                Err(_) => false,
            },
    {
        proof {
            use_type_invariant(self);
        }
        let sso = match &self.config.saml_sso_url {
            Some(s) => s.as_str(),
            None => "",
        };
        let issuer = match &self.config.saml_sp_entity_id {
            Some(s) => s.as_str(),
            None => "",
        };
        let acs = match &self.config.saml_sp_acs_url {
            Some(s) => s.as_str(),
            None => "",
        };
        let rnd = random_bytes(16);
        let mut id = String::new();
        push_char(&mut id, '_');
        push_str(&mut id, hex_encode(rnd.as_slice()).as_str());
        let now = utc_now_fields();
        let instant = format_iso8601(now);
        let mut xml = "<?xml version=\"1.0\" encoding=\"UTF-8\"?>\n<samlp:AuthnRequest xmlns:samlp=\"urn:oasis:names:tc:SAML:2.0:protocol\"\n                    ID=\"".to_owned();
        push_str(&mut xml, id.as_str());
        push_str(&mut xml, "\"\n                    Version=\"2.0\"\n                    IssueInstant=\"");
        push_str(&mut xml, instant.as_str());
        push_str(&mut xml, "\"\n                    Destination=\"");
        push_str(&mut xml, sso);
        push_str(&mut xml, "\"\n                    AssertionConsumerServiceURL=\"");
        push_str(&mut xml, acs);
        push_str(&mut xml, "\">\n  <saml:Issuer xmlns:saml=\"urn:oasis:names:tc:SAML:2.0:assertion\">");
        push_str(&mut xml, issuer);
        push_str(&mut xml, "</saml:Issuer>\n</samlp:AuthnRequest>");
        let encoded = base64_encode(xml.as_str().as_bytes());
        let mut url = sso.to_owned();
        push_str(&mut url, "?SAMLRequest=");
        push_str(&mut url, encoded.as_str());
        proof {
            reveal_strlit("");
            assert(id@ =~= seq!['_'] + hex_lower(rnd@));
            assert(url@ == authn_request_url(self.cfg(), rnd@, now));
        }
        Ok(url)
    }

    /// Read the assertion of a Base64-encoded SAML response (POST binding)
    /// at time `now` (unix seconds): the Base64 must decode, the bytes must
    /// be UTF-8, and the XML is read as [`parse_assertion_at`] says for our
    /// entity id.
    pub fn parse_response_at(&self, saml_response_b64: &str, now: i64) -> (r: Result<SamlAssertion, SsoError>)
        ensures
            match base64_decoded(saml_response_b64@) {
                None => result_view(r) matches Err(SsoErrorView::Invalid(_)),
                Some(bytes) => if !vstd::utf8::valid_utf8(bytes) {
                    result_view(r) matches Err(SsoErrorView::Invalid(_))
                } else {
                    assertion_outcome(
                        vstd::utf8::decode_utf8(bytes),
                        text_or_empty(self.cfg().saml_sp_entity_id),
                        now,
                        result_view(r),
                    )
                },
            },
    {
        proof {
            use_type_invariant(self);
        }
        let bytes = match decode_base64(saml_response_b64) {
            Ok(b) => b,
            Err(m) => {
                return Err(SsoError::SamlResponseInvalid(m));
            },
        };
        let xml = match utf8_text(bytes) {
            Ok(s) => s,
            Err(m) => {
                return Err(SsoError::SamlResponseInvalid(m));
            },
        };
        let sp = match &self.config.saml_sp_entity_id {
            Some(s) => s.as_str(),
            None => "",
        };
        parse_assertion_at(xml.as_str(), sp, now)
    }

    /// Read the assertion of a Base64-encoded SAML response (POST binding)
    /// at the current time; see [`SamlClient::parse_response_at`].
    ///
    /// The XML signature is not verified.
    pub fn parse_response(&self, saml_response_b64: &str) -> (r: Result<SamlAssertion, SsoError>)
        ensures
            match base64_decoded(saml_response_b64@) {
                None => result_view(r) matches Err(SsoErrorView::Invalid(_)),
                Some(bytes) => if !vstd::utf8::valid_utf8(bytes) {
                    result_view(r) matches Err(SsoErrorView::Invalid(_))
                } else {
                    exists|now: i64|
                        unix_seconds_in_range(now) && #[trigger] assertion_outcome(
                            vstd::utf8::decode_utf8(bytes),
                            text_or_empty(self.cfg().saml_sp_entity_id),
                            now,
                            result_view(r),
                        )
                },
            },
    {
        let now = now_unix_seconds();
        self.parse_response_at(saml_response_b64, now)
    }
}

} // verus!
