//! The canonical rendering shared by both indexes: every record renders to
//! one anchor, the anchors are joined by a line-break separator, and the
//! joined links sit inside a fixed document template.

use vstd::prelude::*;

verus! {

/// The separator between two rendered anchors: a line-break element, a
/// newline and four spaces of indentation.
pub open spec fn separator() -> Seq<char> {
    "<br/>\n    "@
}

/// The fixed document text that precedes the links.
pub open spec fn doc_prefix() -> Seq<char> {
    "<!DOCTYPE html>\n<html>\n    <body>\n    "@
}

/// The fixed document text that follows the links.
pub open spec fn doc_suffix() -> Seq<char> {
    "\n    </body>\n</html>"@
}

/// The given pieces joined by the separator: empty for no pieces, one
/// separator between each adjacent pair.
pub open spec fn joined(pieces: Seq<Seq<char>>) -> Seq<char>
    decreases pieces.len(),
{
    if pieces.len() == 0 {
        Seq::empty()
    } else if pieces.len() == 1 {
        pieces[0]
    } else {
        joined(pieces.drop_last()) + separator() + pieces.last()
    }
}

/// A whole rendered document: the joined links inside the fixed template.
pub open spec fn document(pieces: Seq<Seq<char>>) -> Seq<char> {
    doc_prefix() + joined(pieces) + doc_suffix()
}

/// Renders a document from its already-rendered links.
pub(crate) fn render_document(links: &Vec<String>) -> (r: String)
    ensures
        r@ == document(links.deep_view()),
{
    let ghost lv = links.deep_view();
    let mut out = String::from_str("<!DOCTYPE html>\n<html>\n    <body>\n    ");
    proof {
        assert(out@ =~= doc_prefix() + joined(lv.take(0)));
    }
    let mut i: usize = 0;
    while i < links.len()
        invariant
            i <= links@.len(),
            lv == links.deep_view(),
            out@ == doc_prefix() + joined(lv.take(i as int)),
        decreases links@.len() - i,
    {
        if i > 0 {
            out.append("<br/>\n    ");
        }
        out.append(links[i].as_str());
        proof {
            assert(lv.take(i + 1).drop_last() =~= lv.take(i as int));
            assert(lv.take(i + 1).last() == links@[i as int]@);
            assert(out@ =~= doc_prefix() + joined(lv.take(i + 1)));
        }
        i = i + 1;
    }
    out.append("\n    </body>\n</html>");
    proof {
        assert(lv.take(links@.len() as int) =~= lv);
        assert(out@ =~= document(links.deep_view()));
    }
    out
}

} // verus!
