use vstd::prelude::*;

verus! {

/// The ghost image of one matched markup element: its tag name and the
/// values of its `href` and `src` attributes, where present.
pub ghost struct ElementModel {
    pub tag: Seq<char>,
    pub href: Option<Seq<char>>,
    pub src: Option<Seq<char>>,
}

/// One element matched by a selector, reduced to the parts the pipeline
/// reads: the tag name and the two reference attributes an asset may sit in.
#[derive(Debug)]
pub struct MarkupElement {
    pub tag: String,
    pub href: Option<String>,
    pub src: Option<String>,
}

/// The view of an optional string: the character sequence, if present.
pub open spec fn opt_text_view(o: Option<String>) -> Option<Seq<char>> {
    match o {
        Some(s) => Some(s@),
        None => None,
    }
}

impl View for MarkupElement {
    type V = ElementModel;

    open spec fn view(&self) -> ElementModel {
        ElementModel { tag: self.tag@, href: opt_text_view(self.href), src: opt_text_view(self.src) }
    }
}

/// The views of a sequence of matched elements.
pub open spec fn elements_view(s: Seq<MarkupElement>) -> Seq<ElementModel> {
    s.map_values(|e: MarkupElement| e@)
}

/// The elements a selector matches in a markup text, in document order.
/// What they are is decided by the markup parser alone; contracts only carry
/// the name.
pub uninterp spec fn matched_elements(html: Seq<char>, selector: Seq<char>) -> Seq<ElementModel>;

/// Whether a selector string is syntactically valid.
pub uninterp spec fn selector_parses(selector: Seq<char>) -> bool;

/// Relies on scraper: `Selector::parse` decides `selector_parses`;
/// `Html::parse_document` followed by `Html::select` yields the matched
/// elements, a function of the markup text and the selector alone. Markup
/// parsing is permissive, so malformed markup is not an error; only an
/// invalid selector is, and the error carries its message.
#[verifier::external_body]
pub(crate) fn select_in_markup(html: &str, selector: &str) -> (r: Result<Vec<MarkupElement>, String>)
    ensures
        r matches Ok(v) ==> elements_view(v@) == matched_elements(html@, selector@),
        r is Ok <==> selector_parses(selector@),
{
    let sel = match scraper::Selector::parse(selector) {
        Ok(s) => s,
        Err(e) => return Err(format!("{:?}", e)),
    };
    let doc = scraper::Html::parse_document(html);
    Ok(doc
        .select(&sel)
        .map(|el| MarkupElement {
            tag: el.value().name().to_string(),
            href: el.value().attr("href").map(|a| a.to_string()),
            src: el.value().attr("src").map(|a| a.to_string()),
        })
        .collect())
}

} // verus!
