//! Elements of an HTML page, as the `scraper` crate selects them.
use scraper::{ElementRef, Html, Selector};
use vstd::prelude::*;

verus! {

/// An element of a page: its attributes as name and value, in the order
/// the parser keeps them; the HTML of its content; and the text nodes below
/// it, one by one.
#[derive(Debug)]
pub struct Node {
    pub attrs: Vec<(String, String)>,
    pub inner_html: String,
    pub text_nodes: Vec<String>,
}

/// An element as `(text, attributes, inner HTML, text nodes)`, its text
/// being all its text nodes joined.
pub type NodeView = (Seq<char>, Seq<(Seq<char>, Seq<char>)>, Seq<char>, Seq<Seq<char>>);

/// Texts joined one after another.
pub open spec fn concat(texts: Seq<Seq<char>>) -> Seq<char>
    decreases texts.len(),
{
    if texts.len() == 0 {
        Seq::empty()
    } else {
        concat(texts.drop_last()) + texts.last()
    }
}

impl View for Node {
    type V = NodeView;

    open spec fn view(&self) -> NodeView {
        (
            concat(self.text_nodes@.map_values(|t: String| t@)),
            self.attrs@.map_values(|a: (String, String)| (a.0@, a.1@)),
            self.inner_html@,
            self.text_nodes@.map_values(|t: String| t@),
        )
    }
}

impl Node {
    /// An element with the given attributes, inner HTML and text nodes.
    pub fn new(attrs: Vec<(String, String)>, inner_html: String, text_nodes: Vec<String>) -> (res: Self)
        ensures
            res.attrs == attrs,
            res.inner_html == inner_html,
            res.text_nodes == text_nodes,
    {
        Node { attrs, inner_html, text_nodes }
    }

    /// The text of the element: all its text nodes joined.
    pub fn text(&self) -> (res: String)
        ensures
            res@ == self@.0,
    {
        let ghost all = self.text_nodes@.map_values(|t: String| t@);
        let mut out = String::new();
        let mut i: usize = 0;
        assert(all.take(0) =~= Seq::<Seq<char>>::empty());
        while i < self.text_nodes.len()
            invariant
                i <= self.text_nodes@.len(),
                all == self.text_nodes@.map_values(|t: String| t@),
                out@ == concat(all.take(i as int)),
            decreases self.text_nodes@.len() - i,
        {
            assert(all.take(i + 1).drop_last() =~= all.take(i as int));
            assert(all.take(i + 1).last() == self.text_nodes@[i as int]@);
            crate::text::push_str(&mut out, self.text_nodes[i].as_str());
            i = i + 1;
        }
        assert(all.take(self.text_nodes@.len() as int) =~= all);
        out
    }
}

/// The nodes of a list of matches.
pub open spec fn nodes_view(nodes: Seq<Node>) -> Seq<NodeView> {
    nodes.map_values(|n: Node| n@)
}

/// The nodes of a table of rows, each with a list of matches per cell
/// selector.
pub open spec fn rows_view(rows: Seq<Vec<Vec<Node>>>) -> Seq<
    Seq<Seq<NodeView>>,
> {
    rows.map_values(|r: Vec<Vec<Node>>| r@.map_values(|m: Vec<Node>| nodes_view(m@)))
}

/// The texts of a list of selectors.
pub open spec fn selectors_view(selectors: Seq<&str>) -> Seq<Seq<char>> {
    selectors.map_values(|s: &str| s@)
}

/// What the `scraper` crate selects from an HTML document with the given
/// selectors (scope, row, then one per cell): in the first element matching
/// the scope, every element matching the row selector, in document order,
/// and in each of those, for each cell selector, every element it matches
/// (its text, attributes, inner HTML and text nodes). `None` when no
/// element matches the scope or a selector does not parse.
pub uninterp spec fn html_select_rows(document: Seq<char>, selectors: Seq<Seq<char>>) -> Option<
    Seq<Seq<Seq<NodeView>>>,
>;

/// Parses a document with `scraper::Html::parse_document` and selects rows
/// and their cells with `Selector::parse`, `Html::select` and
/// `ElementRef::select`; each match is taken with `attrs`, `inner_html` and
/// `text`. Claims that the result is `html_select_rows` of the arguments.
#[verifier::external_body]
pub(crate) fn select_rows(document: &str, selectors: &[&str]) -> (res: Option<Vec<Vec<Vec<Node>>>>)
    requires
        selectors@.len() >= 2,
    ensures
        match html_select_rows(document@, selectors_view(selectors@)) {
            None => res is None,
            Some(t) => res matches Some(r) && rows_view(r@) == t,
        },
{
    let s = selectors.iter().map(|c| Selector::parse(c).ok()).collect::<Option<Vec<_>>>()?;
    let html = Html::parse_document(document);
    let rows = html.select(&s[0]).next()?.select(&s[1]);
    Some(rows.map(|r| s[2..].iter().map(|c| r.select(c).map(|e: ElementRef| Node::new(e.value().attrs().map(|(k, v)| (k.into(), v.into())).collect(), e.inner_html(), e.text().map(String::from).collect())).collect()).collect()).collect())
}

} // verus!
