//! The boundary to the HTML document parser (the `scraper` crate).
//!
//! The rest of the library never touches markup: the two selectors it needs
//! are applied here, and every matched element is flattened into a record of
//! plain values — exactly the attributes and text fragments the extractors
//! read. What a given markup text parses to is a function of that text alone;
//! the two uninterpreted functions below name those results, and every
//! contract downstream speaks of them.

use vstd::prelude::*;

verus! {

/// One topic listing element (`li > div`) of the topic index page, flattened:
/// its `id` attribute, if present, and the text fragments inside its `h3`
/// heading descendants, in document order.
pub struct ListingNode {
    pub id_attr: Option<String>,
    pub heading_texts: Vec<String>,
}

impl View for ListingNode {
    type V = (Option<Seq<char>>, Seq<Seq<char>>);

    open spec fn view(&self) -> Self::V {
        (
            match self.id_attr {
                Some(s) => Some(s@),
                None => None,
            },
            self.heading_texts@.map_values(|t: String| t@),
        )
    }
}

/// One exercise row (`li > div > table > tbody > tr`) of a topic's exercise
/// listing, flattened. `input_value` is `Some` when the row has a `td > input`
/// descendant; the inner option is that control's `value` attribute.
/// `cell_text` is `Some` when the row has a `td` descendant; the inner option
/// is that cell's first text node.
pub struct RowNode {
    pub input_value: Option<Option<String>>,
    pub cell_text: Option<Option<String>>,
}

/// The view of a nested string option, as plain values.
pub open spec fn opt_opt_view(o: Option<Option<String>>) -> Option<Option<Seq<char>>> {
    match o {
        Some(Some(s)) => Some(Some(s@)),
        Some(None) => Some(None),
        None => None,
    }
}

impl View for RowNode {
    type V = (Option<Option<Seq<char>>>, Option<Option<Seq<char>>>);

    open spec fn view(&self) -> Self::V {
        (opt_opt_view(self.input_value), opt_opt_view(self.cell_text))
    }
}

/// The topic listing elements that a topic index page parses to, in document
/// order, each as its flattened view.
pub uninterp spec fn topic_listings(html: Seq<char>) -> Seq<(Option<Seq<char>>, Seq<Seq<char>>)>;

/// The exercise rows that an exercise listing page parses to, in document
/// order, each as its flattened view.
pub uninterp spec fn exercise_rows(html: Seq<char>) -> Seq<
    (Option<Option<Seq<char>>>, Option<Option<Seq<char>>>),
>;

/// Relies on scraper's `Html::parse_document`, `Selector::parse`,
/// `Html::select`, `ElementRef::select`, `Element::attr` and
/// `ElementRef::text`: parsing a document and selecting elements from it
/// depend on the markup text alone, so the selected `li > div` elements, each
/// element's `id` attribute and the text inside its `h3` descendants are a
/// function of `html`.
#[verifier::external_body]
pub fn select_topic_listings(html: &str) -> (r: Vec<ListingNode>)
    ensures
        r@.map_values(|n: ListingNode| n@) == topic_listings(html@),
{
    let document = scraper::Html::parse_document(html);
    let listing = scraper::Selector::parse("li > div").unwrap();
    let heading = scraper::Selector::parse("h3").unwrap();
    document
        .select(&listing)
        .map(|element| ListingNode {
            id_attr: element.value().attr("id").map(|a| a.to_string()),
            heading_texts: element
                .select(&heading)
                .flat_map(|h| h.text().map(|t| t.to_string()))
                .collect(),
        })
        .collect()
}

/// Relies on scraper's `Html::parse_document`, `Selector::parse`,
/// `Html::select`, `ElementRef::select`, `Element::attr` and
/// `ElementRef::text`: the selected `li > div > table > tbody > tr` rows, the
/// `value` attribute of each row's first `td > input` control and the first
/// text node of its first `td` cell are a function of `html`.
#[verifier::external_body]
pub fn select_exercise_rows(html: &str) -> (r: Vec<RowNode>)
    ensures
        r@.map_values(|n: RowNode| n@) == exercise_rows(html@),
{
    let document = scraper::Html::parse_document(html);
    let row = scraper::Selector::parse("li > div > table > tbody > tr").unwrap();
    let control = scraper::Selector::parse("td > input").unwrap();
    let cell = scraper::Selector::parse("td").unwrap();
    document
        .select(&row)
        .map(|element| RowNode {
            input_value: element.select(&control).next().map(|c| c.value().attr("value").map(|v| v.to_string())),
            cell_text: element.select(&cell).next().map(|c| c.text().next().map(|t| t.to_string())),
        })
        .collect()
}

} // verus!
