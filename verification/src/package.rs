//! The package index: the listing of every downloadable release artifact of
//! one package, with the per-anchor metadata attributes decoded into a typed
//! record.

use crate::anchor::{anchors_of, attr_lookup, extract_anchors, str_eq, Anchor, AnchorData};
use crate::render;
use vstd::prelude::*;

verus! {

/// One downloadable artifact of a package, plus its metadata.
#[derive(Debug, PartialEq, Eq)]
pub struct Release {
    /// The display name of the artifact: the anchor's text content, kept
    /// whole, never split into version or platform parts.
    pub name: String,
    /// The anchor's `href` attribute verbatim, any checksum fragment
    /// included; never parsed into URL components.
    pub uri: String,
    /// Whether a detached GPG signature is available: true exactly when the
    /// signature attribute carries the literal `"true"`.
    pub has_gpg: bool,
    /// The raw Python-version constraint, when the attribute is present;
    /// stored verbatim, never validated.
    pub requires_python: Option<String>,
}

/// The mathematical shape of one release.
pub ghost struct ReleaseData {
    pub name: Seq<char>,
    pub uri: Seq<char>,
    pub has_gpg: bool,
    pub requires_python: Option<Seq<char>>,
}

impl View for Release {
    type V = ReleaseData;

    open spec fn view(&self) -> ReleaseData {
        ReleaseData {
            name: self.name@,
            uri: self.uri@,
            has_gpg: self.has_gpg,
            requires_python: self.requires_python.deep_view(),
        }
    }
}

impl DeepView for Release {
    type V = ReleaseData;

    open spec fn deep_view(&self) -> ReleaseData {
        self.view()
    }
}

/// The listing of one package's release artifacts, in document order,
/// duplicates preserved.
#[derive(Debug, PartialEq, Eq)]
pub struct PackageIndex {
    pub releases: Vec<Release>,
}

impl View for PackageIndex {
    type V = Seq<ReleaseData>;

    open spec fn view(&self) -> Seq<ReleaseData> {
        self.releases.deep_view()
    }
}

/// The release that one anchor decodes to, if it decodes to one: the anchor
/// must have text content and an `href` attribute; the GPG flag is set
/// exactly when the signature attribute is the literal `"true"`, and the
/// version constraint is carried over verbatim when present.
pub open spec fn release_of(a: AnchorData) -> Option<ReleaseData> {
    match a.text {
        None => None,
        Some(t) => match attr_lookup(a.attrs, "href"@) {
            None => None,
            Some(u) => Some(
                ReleaseData {
                    name: t,
                    uri: u,
                    has_gpg: attr_lookup(a.attrs, "data-gpg-sig"@) == Some("true"@),
                    requires_python: attr_lookup(a.attrs, "data-requires-python"@),
                },
            ),
        },
    }
}

/// The releases carried by a sequence of anchors: the decoded release of
/// each anchor that decodes to one, in order; an anchor without text content
/// or without an `href` attribute contributes nothing.
pub open spec fn releases_of(anchors: Seq<AnchorData>) -> Seq<ReleaseData>
    decreases anchors.len(),
{
    if anchors.len() == 0 {
        Seq::empty()
    } else {
        releases_of(anchors.drop_last()) + (match release_of(anchors.last()) {
            Some(r) => seq![r],
            None => Seq::empty(),
        })
    }
}

/// The leading-space attribute text for the version constraint, when one is
/// present.
pub open spec fn requires_python_part(o: Option<Seq<char>>) -> Seq<char> {
    match o {
        Some(v) => " data-requires-python=\""@ + v + "\""@,
        None => Seq::<char>::empty(),
    }
}

/// The leading-space attribute text for the GPG flag, when it is set.
pub open spec fn gpg_part(b: bool) -> Seq<char> {
    if b {
        " data-gpg-sig=\"true\""@
    } else {
        Seq::<char>::empty()
    }
}

/// The rendered anchor for one release: `href` first, then the version
/// constraint if present, then the GPG flag if set, then the name; every
/// value interpolated verbatim with no escaping.
pub open spec fn release_link(r: ReleaseData) -> Seq<char> {
    "<a href=\""@ + r.uri + "\""@ + requires_python_part(r.requires_python) + gpg_part(r.has_gpg)
        + ">"@ + r.name + "</a>"@
}

/// The canonical document for a package index: one anchor per release,
/// inside the fixed template.
pub open spec fn package_document(releases: Seq<ReleaseData>) -> Seq<char> {
    render::document(releases.map_values(|r: ReleaseData| release_link(r)))
}

/// The attribute pair carrying the version constraint, when one is present.
pub open spec fn requires_python_attr(o: Option<Seq<char>>) -> Seq<(Seq<char>, Seq<char>)> {
    match o {
        Some(v) => seq![("data-requires-python"@, v)],
        None => Seq::<(Seq<char>, Seq<char>)>::empty(),
    }
}

/// The attribute pair carrying the GPG flag, when it is set.
pub open spec fn gpg_attr(b: bool) -> Seq<(Seq<char>, Seq<char>)> {
    if b {
        seq![("data-gpg-sig"@, "true"@)]
    } else {
        Seq::<(Seq<char>, Seq<char>)>::empty()
    }
}

/// The anchor that the canonical rendering produces for one release: the
/// name as text content, and the attributes in their fixed order.
pub open spec fn release_anchor(r: ReleaseData) -> AnchorData {
    AnchorData {
        text: Some(r.name),
        attrs: seq![("href"@, r.uri)] + requires_python_attr(r.requires_python) + gpg_attr(
            r.has_gpg,
        ),
    }
}

/// Decoding inverts encoding for one record: the canonical anchor of a
/// release decodes back to exactly that release, whatever its field values.
pub proof fn lemma_release_round_trip(r: ReleaseData)
    ensures
        release_of(release_anchor(r)) == Some(r),
{
    reveal_strlit("href");
    reveal_strlit("data-requires-python");
    reveal_strlit("data-gpg-sig");
    reveal_strlit("true");
    let href = "href"@;
    let drp = "data-requires-python"@;
    let dgs = "data-gpg-sig"@;
    assert(href.len() == 4 && drp.len() == 20 && dgs.len() == 12);
    let a = release_anchor(r);
    let hd = (href, r.uri);
    let e = Seq::<(Seq<char>, Seq<char>)>::empty();
    assert(attr_lookup(e, dgs) is None);
    assert(attr_lookup(e, drp) is None);
    match (r.requires_python, r.has_gpg) {
        (Option::None, false) => {
            assert(a.attrs =~= seq![hd]);
            assert(a.attrs.drop_first() =~= e);
            assert(attr_lookup(a.attrs, href) == Some(r.uri));
            assert(attr_lookup(a.attrs, dgs) is None);
            assert(attr_lookup(a.attrs, drp) is None);
        },
        (Option::Some(v), false) => {
            let s1 = seq![(drp, v)];
            assert(s1.drop_first() =~= e);
            assert(attr_lookup(s1, dgs) is None);
            assert(attr_lookup(s1, drp) == Some(v));
            assert(a.attrs =~= seq![hd, (drp, v)]);
            assert(a.attrs.drop_first() =~= s1);
            assert(attr_lookup(a.attrs, href) == Some(r.uri));
            assert(attr_lookup(a.attrs, dgs) is None);
            assert(attr_lookup(a.attrs, drp) == Some(v));
        },
        (Option::None, true) => {
            let s1 = seq![(dgs, "true"@)];
            assert(s1.drop_first() =~= e);
            assert(attr_lookup(s1, dgs) == Some("true"@));
            assert(attr_lookup(s1, drp) is None);
            assert(a.attrs =~= seq![hd, (dgs, "true"@)]);
            assert(a.attrs.drop_first() =~= s1);
            assert(attr_lookup(a.attrs, href) == Some(r.uri));
            assert(attr_lookup(a.attrs, dgs) == Some("true"@));
            assert(attr_lookup(a.attrs, drp) is None);
        },
        (Option::Some(v), true) => {
            let s2 = seq![(dgs, "true"@)];
            let s1 = seq![(drp, v), (dgs, "true"@)];
            assert(s2.drop_first() =~= e);
            assert(attr_lookup(s2, dgs) == Some("true"@));
            assert(attr_lookup(s2, drp) is None);
            assert(s1.drop_first() =~= s2);
            assert(attr_lookup(s1, dgs) == Some("true"@));
            assert(attr_lookup(s1, drp) == Some(v));
            assert(a.attrs =~= seq![hd, (drp, v), (dgs, "true"@)]);
            assert(a.attrs.drop_first() =~= s1);
            assert(attr_lookup(a.attrs, href) == Some(r.uri));
            assert(attr_lookup(a.attrs, dgs) == Some("true"@));
            assert(attr_lookup(a.attrs, drp) == Some(v));
        },
    }
}

/// Decoding distributes over concatenation of anchor sequences.
pub proof fn lemma_releases_of_concat(s1: Seq<AnchorData>, s2: Seq<AnchorData>)
    ensures
        releases_of(s1 + s2) == releases_of(s1) + releases_of(s2),
    decreases s2.len(),
{
    if s2.len() == 0 {
        assert(s1 + s2 =~= s1);
        assert(releases_of(s1) + releases_of(s2) =~= releases_of(s1));
    } else {
        lemma_releases_of_concat(s1, s2.drop_last());
        assert((s1 + s2).drop_last() =~= s1 + s2.drop_last());
        assert((s1 + s2).last() == s2.last());
        assert(releases_of(s1 + s2) =~= releases_of(s1) + releases_of(s2));
    }
}

/// Order is preserved: when every anchor decodes to a release, the listing
/// holds exactly those releases, one per anchor, in the same order — never
/// reordered.
pub proof fn lemma_package_order_preserved(anchors: Seq<AnchorData>)
    requires
        forall|i: int| 0 <= i < anchors.len() ==> (#[trigger] release_of(anchors[i])) is Some,
    ensures
        releases_of(anchors).len() == anchors.len(),
        forall|i: int|
            0 <= i < anchors.len() ==> #[trigger] releases_of(anchors)[i] == release_of(
                anchors[i],
            ).unwrap(),
    decreases anchors.len(),
{
    if anchors.len() > 0 {
        lemma_package_order_preserved(anchors.drop_last());
    }
}

proof fn lemma_skips_undecodable_anchor(pre: Seq<AnchorData>, a: AnchorData, post: Seq<AnchorData>)
    requires
        release_of(a) is None,
    ensures
        releases_of(pre + seq![a] + post) == releases_of(pre + post),
{
    lemma_releases_of_concat(pre + seq![a], post);
    lemma_releases_of_concat(pre, seq![a]);
    lemma_releases_of_concat(pre, post);
    assert(seq![a].drop_last() =~= Seq::<AnchorData>::empty());
    assert(seq![a].last() == a);
    assert(releases_of(seq![a]) == releases_of(Seq::<AnchorData>::empty()) + Seq::<
        ReleaseData,
    >::empty());
    assert(releases_of(seq![a]) =~= Seq::<ReleaseData>::empty());
    assert(releases_of(pre + seq![a] + post) =~= releases_of(pre + post));
}

/// An anchor with no text content contributes nothing: removing it from a
/// document's anchor sequence leaves the listing unchanged.
pub proof fn lemma_package_skips_textless_anchor(
    pre: Seq<AnchorData>,
    a: AnchorData,
    post: Seq<AnchorData>,
)
    requires
        a.text is None,
    ensures
        releases_of(pre + seq![a] + post) == releases_of(pre + post),
{
    lemma_skips_undecodable_anchor(pre, a, post);
}

/// An anchor with text content but no `href` attribute contributes nothing:
/// removing it from a document's anchor sequence leaves the listing
/// unchanged.
pub proof fn lemma_package_skips_hrefless_anchor(
    pre: Seq<AnchorData>,
    a: AnchorData,
    post: Seq<AnchorData>,
)
    requires
        a.text is Some,
        attr_lookup(a.attrs, "href"@) is None,
    ensures
        releases_of(pre + seq![a] + post) == releases_of(pre + post),
{
    lemma_skips_undecodable_anchor(pre, a, post);
}

/// The GPG flag is strict: a decoded release carries `has_gpg == true`
/// exactly when the anchor's signature attribute is the literal `"true"`;
/// any other value, and an absent attribute, decode to `false`.
pub proof fn lemma_gpg_flag_strict(a: AnchorData)
    requires
        release_of(a) is Some,
    ensures
        release_of(a).unwrap().has_gpg <==> attr_lookup(a.attrs, "data-gpg-sig"@) == Some(
            "true"@,
        ),
{
}

/// The decoding half inverts the rendering half over the anchor model:
/// decoding the canonical anchor of every release recovers the listing
/// exactly.
pub proof fn lemma_package_round_trip(releases: Seq<ReleaseData>)
    ensures
        releases_of(releases.map_values(|r: ReleaseData| release_anchor(r))) == releases,
    decreases releases.len(),
{
    let m = releases.map_values(|r: ReleaseData| release_anchor(r));
    if releases.len() == 0 {
        assert(releases_of(m) =~= releases);
    } else {
        lemma_package_round_trip(releases.drop_last());
        lemma_release_round_trip(releases.last());
        assert(m.drop_last() =~= releases.drop_last().map_values(
            |r: ReleaseData| release_anchor(r),
        ));
        assert(m.last() == release_anchor(releases.last()));
        assert(releases_of(m) =~= releases);
    }
}

impl Release {
    /// Decodes one anchor into a release, when the anchor has both text
    /// content and an `href` attribute; yields nothing otherwise.
    pub fn from_anchor(a: &Anchor) -> (r: Option<Release>)
        ensures
            r.deep_view() == release_of(a@),
    {
        let name = match &a.text {
            Some(t) => t.clone(),
            None => {
                return None;
            },
        };
        let uri = match a.attr("href") {
            Some(u) => u.clone(),
            None => {
                return None;
            },
        };
        let has_gpg = match a.attr("data-gpg-sig") {
            Some(v) => str_eq(v.as_str(), "true"),
            None => false,
        };
        let requires_python = match a.attr("data-requires-python") {
            Some(v) => Some(v.clone()),
            None => None,
        };
        Some(Release { name, uri, has_gpg, requires_python })
    }

    /// Renders the canonical anchor for this release.
    pub fn to_text(&self) -> (r: String)
        ensures
            r@ == release_link(self@),
    {
        let mut s = String::from_str("<a href=\"");
        s.append(self.uri.as_str());
        s.append("\"");
        match &self.requires_python {
            Some(v) => {
                s.append(" data-requires-python=\"");
                s.append(v.as_str());
                s.append("\"");
            },
            None => {},
        }
        if self.has_gpg {
            s.append(" data-gpg-sig=\"true\"");
        }
        s.append(">");
        s.append(self.name.as_str());
        s.append("</a>");
        proof {
            assert(s@ =~= release_link(self@));
        }
        s
    }
}

impl PackageIndex {
    /// Builds a package index from a sequence of anchors: the decoded
    /// release of each anchor that decodes to one, in order; the rest are
    /// skipped.
    pub fn from_anchors(anchors: &Vec<Anchor>) -> (r: PackageIndex)
        ensures
            r@ == releases_of(anchors.deep_view()),
    {
        let ghost av = anchors.deep_view();
        let mut releases: Vec<Release> = Vec::new();
        proof {
            assert(releases.deep_view() =~= releases_of(av.take(0)));
        }
        let mut i: usize = 0;
        while i < anchors.len()
            invariant
                i <= anchors@.len(),
                av == anchors.deep_view(),
                releases.deep_view() == releases_of(av.take(i as int)),
            decreases anchors@.len() - i,
        {
            let ghost before = releases.deep_view();
            proof {
                assert(av[i as int] == anchors@[i as int]@);
                assert(av.take(i + 1).drop_last() =~= av.take(i as int));
                assert(av.take(i + 1).last() == av[i as int]);
            }
            match Release::from_anchor(&anchors[i]) {
                Some(rel) => {
                    releases.push(rel);
                    proof {
                        assert(releases.deep_view() =~= before + seq![
                            release_of(av[i as int]).unwrap(),
                        ]);
                    }
                },
                None => {
                    proof {
                        assert(releases.deep_view() =~= before + Seq::<ReleaseData>::empty());
                    }
                },
            }
            i = i + 1;
        }
        proof {
            assert(av.take(anchors@.len() as int) =~= av);
        }
        PackageIndex { releases }
    }

    /// Parses a package index out of raw HTML: one release per anchor that
    /// carries both text content and an `href` attribute, in document order.
    /// Parsing never fails; a document with no such anchors yields an empty
    /// listing.
    pub fn from_text(html: &str) -> (r: PackageIndex)
        ensures
            r@ == releases_of(anchors_of(html@)),
    {
        let anchors = extract_anchors(html);
        PackageIndex::from_anchors(&anchors)
    }

    /// Renders the canonical document for this listing: one anchor per
    /// release, joined by the separator, inside the fixed template. Values
    /// are interpolated with no escaping.
    pub fn to_text(&self) -> (r: String)
        ensures
            r@ == package_document(self@),
    {
        let ghost rv = self@;
        let mut links: Vec<String> = Vec::new();
        let mut i: usize = 0;
        while i < self.releases.len()
            invariant
                i <= self.releases@.len(),
                rv == self@,
                links.deep_view() == rv.take(i as int).map_values(
                    |r: ReleaseData| release_link(r),
                ),
            decreases self.releases@.len() - i,
        {
            let ghost before = links.deep_view();
            links.push(self.releases[i].to_text());
            proof {
                assert(rv[i as int] == self.releases@[i as int]@);
                assert(links.deep_view() =~= before.push(release_link(rv[i as int])));
                assert(rv.take(i + 1).map_values(|r: ReleaseData| release_link(r)) =~= before.push(
                    release_link(rv[i as int]),
                ));
            }
            i = i + 1;
        }
        proof {
            assert(rv.take(self.releases@.len() as int) =~= rv);
        }
        render::render_document(&links)
    }
}

} // verus!
