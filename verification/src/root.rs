//! The root index: the top-level listing of every package name in a
//! repository.

use crate::anchor::{anchors_of, extract_anchors, Anchor, AnchorData};
use crate::render;
use vstd::prelude::*;

verus! {

/// The top-level listing of a repository: its package names in document
/// order, duplicates preserved as they stand, nothing normalized.
#[derive(Debug, PartialEq, Eq)]
pub struct RootIndex {
    pub packages: Vec<String>,
}

impl View for RootIndex {
    type V = Seq<Seq<char>>;

    open spec fn view(&self) -> Seq<Seq<char>> {
        self.packages.deep_view()
    }
}

/// The package names carried by a sequence of anchors: the text content of
/// each anchor that has one, in order; an anchor without text content
/// contributes nothing.
pub open spec fn packages_of(anchors: Seq<AnchorData>) -> Seq<Seq<char>>
    decreases anchors.len(),
{
    if anchors.len() == 0 {
        Seq::empty()
    } else {
        packages_of(anchors.drop_last()) + (match anchors.last().text {
            Some(t) => seq![t],
            None => Seq::empty(),
        })
    }
}

/// The rendered link for one package name, the name interpolated verbatim
/// with no escaping.
pub open spec fn package_link(name: Seq<char>) -> Seq<char> {
    "<a href=\"/simple/"@ + name + "/\">"@ + name + "</a>"@
}

/// The canonical document for a root index: one link per package name,
/// inside the fixed template.
pub open spec fn root_document(packages: Seq<Seq<char>>) -> Seq<char> {
    render::document(packages.map_values(|p: Seq<char>| package_link(p)))
}

impl RootIndex {
    /// Builds a root index from a sequence of anchors: the text of each
    /// anchor that has text content, in order; the rest are skipped.
    pub fn from_anchors(anchors: &Vec<Anchor>) -> (r: RootIndex)
        ensures
            r@ == packages_of(anchors.deep_view()),
    {
        let ghost av = anchors.deep_view();
        let mut packages: Vec<String> = Vec::new();
        proof {
            assert(packages.deep_view() =~= packages_of(av.take(0)));
        }
        let mut i: usize = 0;
        while i < anchors.len()
            invariant
                i <= anchors@.len(),
                av == anchors.deep_view(),
                packages.deep_view() == packages_of(av.take(i as int)),
            decreases anchors@.len() - i,
        {
            let ghost before = packages.deep_view();
            proof {
                assert(av[i as int] == anchors@[i as int]@);
                assert(av.take(i + 1).drop_last() =~= av.take(i as int));
                assert(av.take(i + 1).last() == av[i as int]);
            }
            match &anchors[i].text {
                Some(t) => {
                    packages.push(t.clone());
                    proof {
                        assert(packages.deep_view() =~= before + seq![av[i as int].text.unwrap()]);
                    }
                },
                None => {
                    proof {
                        assert(packages.deep_view() =~= before + Seq::<Seq<char>>::empty());
                    }
                },
            }
            i = i + 1;
        }
        proof {
            assert(av.take(anchors@.len() as int) =~= av);
        }
        RootIndex { packages }
    }

    /// Parses a root index out of raw HTML: the text of every anchor in the
    /// document, in document order. Parsing never fails; a document with no
    /// anchors yields an empty listing.
    pub fn from_text(html: &str) -> (r: RootIndex)
        ensures
            r@ == packages_of(anchors_of(html@)),
    {
        let anchors = extract_anchors(html);
        RootIndex::from_anchors(&anchors)
    }

    /// Renders the canonical document for this listing: one
    /// `<a href="/simple/{name}/">{name}</a>` per package, joined by the
    /// separator, inside the fixed template. Names are interpolated with no
    /// escaping.
    pub fn to_text(&self) -> (r: String)
        ensures
            r@ == root_document(self@),
    {
        let ghost pv = self@;
        let mut links: Vec<String> = Vec::new();
        let mut i: usize = 0;
        while i < self.packages.len()
            invariant
                i <= self.packages@.len(),
                pv == self@,
                links.deep_view() == pv.take(i as int).map_values(
                    |p: Seq<char>| package_link(p),
                ),
            decreases self.packages@.len() - i,
        {
            let ghost before = links.deep_view();
            links.push(render_package_link(&self.packages[i]));
            proof {
                assert(pv[i as int] == self.packages@[i as int]@);
                assert(links.deep_view() =~= before.push(package_link(pv[i as int])));
                assert(pv.take(i + 1).map_values(|p: Seq<char>| package_link(p)) =~= before.push(
                    package_link(pv[i as int]),
                ));
            }
            i = i + 1;
        }
        proof {
            assert(pv.take(self.packages@.len() as int) =~= pv);
        }
        render::render_document(&links)
    }
}

/// The anchor that the canonical rendering produces for one package name:
/// the name as text content, and one `href` attribute pointing at the
/// package's own index page.
pub open spec fn package_anchor(name: Seq<char>) -> AnchorData {
    AnchorData { text: Some(name), attrs: seq![("href"@, "/simple/"@ + name + "/"@)] }
}

/// Decoding distributes over concatenation of anchor sequences.
pub proof fn lemma_packages_of_concat(s1: Seq<AnchorData>, s2: Seq<AnchorData>)
    ensures
        packages_of(s1 + s2) == packages_of(s1) + packages_of(s2),
    decreases s2.len(),
{
    if s2.len() == 0 {
        assert(s1 + s2 =~= s1);
        assert(packages_of(s1) + packages_of(s2) =~= packages_of(s1));
    } else {
        lemma_packages_of_concat(s1, s2.drop_last());
        assert((s1 + s2).drop_last() =~= s1 + s2.drop_last());
        assert((s1 + s2).last() == s2.last());
        assert(packages_of(s1 + s2) =~= packages_of(s1) + packages_of(s2));
    }
}

/// Order is preserved: when every anchor has text content, the listing holds
/// exactly their texts, one per anchor, in the same order — never reordered.
pub proof fn lemma_root_order_preserved(anchors: Seq<AnchorData>)
    requires
        forall|i: int| 0 <= i < anchors.len() ==> (#[trigger] anchors[i].text) is Some,
    ensures
        packages_of(anchors).len() == anchors.len(),
        forall|i: int|
            0 <= i < anchors.len() ==> #[trigger] packages_of(anchors)[i]
                == anchors[i].text.unwrap(),
    decreases anchors.len(),
{
    if anchors.len() > 0 {
        lemma_root_order_preserved(anchors.drop_last());
    }
}

/// An anchor with no text content contributes nothing: removing it from a
/// document's anchor sequence leaves the listing unchanged.
pub proof fn lemma_root_skips_textless_anchor(
    pre: Seq<AnchorData>,
    a: AnchorData,
    post: Seq<AnchorData>,
)
    requires
        a.text is None,
    ensures
        packages_of(pre + seq![a] + post) == packages_of(pre + post),
{
    lemma_packages_of_concat(pre + seq![a], post);
    lemma_packages_of_concat(pre, seq![a]);
    lemma_packages_of_concat(pre, post);
    assert(seq![a].drop_last() =~= Seq::<AnchorData>::empty());
    assert(seq![a].last() == a);
    assert(packages_of(seq![a]) == packages_of(Seq::<AnchorData>::empty()) + Seq::<Seq<
        char,
    >>::empty());
    assert(packages_of(seq![a]) =~= Seq::<Seq<char>>::empty());
    assert(packages_of(pre + seq![a] + post) =~= packages_of(pre + post));
}

/// The decoding half inverts the rendering half over the anchor model:
/// decoding the canonical anchor of every package name recovers the listing
/// exactly.
pub proof fn lemma_root_round_trip(packages: Seq<Seq<char>>)
    ensures
        packages_of(packages.map_values(|p: Seq<char>| package_anchor(p))) == packages,
    decreases packages.len(),
{
    let m = packages.map_values(|p: Seq<char>| package_anchor(p));
    if packages.len() == 0 {
        assert(packages_of(m) =~= packages);
    } else {
        lemma_root_round_trip(packages.drop_last());
        assert(m.drop_last() =~= packages.drop_last().map_values(
            |p: Seq<char>| package_anchor(p),
        ));
        assert(m.last() == package_anchor(packages.last()));
        assert(packages_of(m) =~= packages);
    }
}

fn render_package_link(name: &String) -> (r: String)
    ensures
        r@ == package_link(name@),
{
    let mut s = String::from_str("<a href=\"/simple/");
    s.append(name.as_str());
    s.append("/\">");
    s.append(name.as_str());
    s.append("</a>");
    proof {
        assert(s@ =~= package_link(name@));
    }
    s
}

} // verus!
