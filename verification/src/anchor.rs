//! The anchor model: the one structural unit of the index format. A
//! general-purpose HTML parser reduces a document to its ordered sequence of
//! `<a>` elements, each carrying its direct text content and its attribute
//! map; everything downstream of that boundary works on the sequence alone.

use kuchiki::traits::TendrilSink;
use vstd::prelude::*;

verus! {

/// One `<a>` element of a parsed document: the text of its first child when
/// that child is a text node, and its attributes as name/value pairs.
pub struct Anchor {
    /// The direct text content: the first child's text, when that child is a
    /// text node; absent otherwise, and absent for a childless anchor.
    pub text: Option<String>,
    /// The attributes on the tag, as (name, value) pairs with distinct names.
    pub attrs: Vec<(String, String)>,
}

/// The mathematical shape of one anchor.
pub ghost struct AnchorData {
    pub text: Option<Seq<char>>,
    pub attrs: Seq<(Seq<char>, Seq<char>)>,
}

impl View for Anchor {
    type V = AnchorData;

    open spec fn view(&self) -> AnchorData {
        AnchorData { text: self.text.deep_view(), attrs: self.attrs.deep_view() }
    }
}

impl DeepView for Anchor {
    type V = AnchorData;

    open spec fn deep_view(&self) -> AnchorData {
        self.view()
    }
}

/// The sequence of anchors that the HTML parser yields for a document, in
/// document order.
pub uninterp spec fn anchors_of(html: Seq<char>) -> Seq<AnchorData>;

/// Relies on kuchiki::parse_html, TendrilSink::one and NodeRef::select:
/// parsing is permissive and never fails, `select("a")` yields exactly the
/// `<a>` elements in document order, and the result is a function of the
/// text alone.
#[verifier::external_body]
pub(crate) fn extract_anchors(html: &str) -> (r: Vec<Anchor>)
    ensures
        r.deep_view() == anchors_of(html@),
{
    let doc = kuchiki::parse_html().one(html);
    let mut r: Vec<Anchor> = Vec::new();
    if let Ok(sel) = doc.select("a") {
        for m in sel {
            let text = m.as_node().first_child().and_then(|c| c.as_text().map(|t| t.borrow().clone()));
            let attrs = m.attributes.borrow().map.iter().map(|(k, v)| (k.local.to_string(), v.value.clone())).collect();
            r.push(Anchor { text, attrs });
        }
    }
    r
}

/// The value under an attribute name: the first pair carrying the name, if
/// any pair does.
pub open spec fn attr_lookup(attrs: Seq<(Seq<char>, Seq<char>)>, name: Seq<char>) -> Option<Seq<char>>
    decreases attrs.len(),
{
    if attrs.len() == 0 {
        None
    } else if attrs[0].0 == name {
        Some(attrs[0].1)
    } else {
        attr_lookup(attrs.drop_first(), name)
    }
}

/// Relies on str's equality operator: two string slices are equal exactly
/// when their character sequences are.
#[verifier::external_body]
pub(crate) fn str_eq(a: &str, b: &str) -> (r: bool)
    ensures
        r == (a@ == b@),
{
    a == b
}

impl Anchor {
    /// Looks up an attribute of this anchor by name.
    pub fn attr(&self, name: &str) -> (r: Option<&String>)
        ensures
            r.deep_view() == attr_lookup(self@.attrs, name@),
    {
        let mut i: usize = 0;
        proof {
            assert(self@.attrs.skip(0) =~= self@.attrs);
        }
        while i < self.attrs.len()
            invariant
                i <= self.attrs@.len(),
                attr_lookup(self@.attrs, name@) == attr_lookup(
                    self@.attrs.skip(i as int),
                    name@,
                ),
            decreases self.attrs@.len() - i,
        {
            proof {
                assert(self@.attrs[i as int] == (self.attrs@[i as int].0@, self.attrs@[i as int].1@));
            }
            if str_eq(self.attrs[i].0.as_str(), name) {
                proof {
                    assert(self@.attrs.skip(i as int)[0] == self@.attrs[i as int]);
                }
                return Some(&self.attrs[i].1);
            }
            proof {
                assert(self@.attrs.skip(i as int).drop_first() =~= self@.attrs.skip(i + 1));
                assert(self@.attrs.skip(i as int)[0] == self@.attrs[i as int]);
            }
            i = i + 1;
        }
        proof {
            assert(self@.attrs.skip(i as int).len() == 0);
        }
        None
    }
}

} // verus!
