use vstd::prelude::*;
use vstd::string::*;

use crate::errors::WebsiteDownloaderError;
use crate::markup::{
    elements_view, matched_elements, opt_text_view, select_in_markup, selector_parses,
    ElementModel, MarkupElement,
};
use crate::resolve::{joined_url, last_path_segment, resolve_asset_url, url_last_segment};

verus! {

/// The four kinds of asset the pipeline downloads.
#[derive(Clone, Copy, Debug, PartialEq, Eq, Structural)]
pub enum AssetCategory {
    Stylesheet,
    Script,
    Image,
    Video,
}

/// The destination subdirectory of each category.
pub open spec fn subdirectory_spec(category: AssetCategory) -> Seq<char> {
    match category {
        AssetCategory::Stylesheet => "css"@,
        AssetCategory::Script => "js"@,
        AssetCategory::Image => "img"@,
        AssetCategory::Video => "videos"@,
    }
}

/// The file name used when the resolved URL offers no usable path segment.
pub open spec fn default_file_name_spec(category: AssetCategory) -> Seq<char> {
    match category {
        AssetCategory::Video => "video.mp4"@,
        _ => "index.html"@,
    }
}

/// The local file name of an asset: the final path segment of its resolved
/// URL, or the category's default when the URL has none (or an empty one, as
/// after a trailing `/`).
pub open spec fn file_name_spec(segment: Option<Seq<char>>, category: AssetCategory) -> Seq<char> {
    match segment {
        Some(s) => if s.len() > 0 {
            s
        } else {
            default_file_name_spec(category)
        },
        None => default_file_name_spec(category),
    }
}

/// The path of an asset's saved copy, relative to the destination directory:
/// `<subdirectory>/<file name>`.
pub open spec fn local_path_spec(category: AssetCategory, file_name: Seq<char>) -> Seq<char> {
    subdirectory_spec(category) + "/"@ + file_name
}

pub fn subdirectory(category: AssetCategory) -> (r: &'static str)
    ensures
        r@ == subdirectory_spec(category),
{
    match category {
        AssetCategory::Stylesheet => "css",
        AssetCategory::Script => "js",
        AssetCategory::Image => "img",
        AssetCategory::Video => "videos",
    }
}

pub fn default_file_name(category: AssetCategory) -> (r: &'static str)
    ensures
        r@ == default_file_name_spec(category),
{
    match category {
        AssetCategory::Video => "video.mp4",
        _ => "index.html",
    }
}

pub fn file_name_for(segment: Option<String>, category: AssetCategory) -> (r: String)
    ensures
        r@ == file_name_spec(opt_text_view(segment), category),
{
    match segment {
        Some(s) => if s.as_str().is_empty() {
            String::from_str(default_file_name(category))
        } else {
            s
        },
        None => String::from_str(default_file_name(category)),
    }
}

pub fn local_relative_path(category: AssetCategory, file_name: &str) -> (r: String)
    ensures
        r@ == local_path_spec(category, file_name@),
{
    let mut path = String::from_str(subdirectory(category));
    path.append("/");
    path.append(file_name);
    path
}

/// The ghost image of one discovered asset reference.
pub ghost struct AssetRefModel {
    pub original: Seq<char>,
    pub resolved_url: Seq<char>,
    pub category: AssetCategory,
    pub local_relative_path: Seq<char>,
}

/// One discovered asset: the attribute value as it appears in the markup,
/// its resolved absolute URL, its category, and the relative path its saved
/// copy will live under.
#[derive(Debug)]
pub struct AssetReference {
    pub original: String,
    pub resolved_url: String,
    pub category: AssetCategory,
    pub local_relative_path: String,
}

impl View for AssetReference {
    type V = AssetRefModel;

    open spec fn view(&self) -> AssetRefModel {
        AssetRefModel {
            original: self.original@,
            resolved_url: self.resolved_url@,
            category: self.category,
            local_relative_path: self.local_relative_path@,
        }
    }
}

/// The ghost image of one recorded replacement.
pub ghost struct ReplacementModel {
    pub original_text: Seq<char>,
    pub replacement_text: Seq<char>,
}

/// One recorded substitution: every literal occurrence of `original_text` in
/// the page is replaced by `replacement_text`.
#[derive(Debug)]
pub struct Replacement {
    pub original_text: String,
    pub replacement_text: String,
}

impl View for Replacement {
    type V = ReplacementModel;

    open spec fn view(&self) -> ReplacementModel {
        ReplacementModel {
            original_text: self.original_text@,
            replacement_text: self.replacement_text@,
        }
    }
}

/// The views of a sequence of discovered assets.
pub open spec fn refs_view(s: Seq<AssetReference>) -> Seq<AssetRefModel> {
    s.map_values(|a: AssetReference| a@)
}

/// The views of a sequence of recorded replacements.
pub open spec fn replacements_view(s: Seq<Replacement>) -> Seq<ReplacementModel> {
    s.map_values(|p: Replacement| p@)
}

/// The attribute an element's reference sits in: `href` on a `link` element,
/// `src` on every other.
pub open spec fn reference_attribute_spec(element: ElementModel) -> Option<Seq<char>> {
    if element.tag == "link"@ {
        element.href
    } else {
        element.src
    }
}

pub fn reference_attribute(element: &MarkupElement) -> (r: Option<&String>)
    ensures
        r matches Some(a) ==> reference_attribute_spec(element@) == Some(a@),
        r is None <==> reference_attribute_spec(element@) is None,
{
    let link_tag = String::from_str("link");
    if element.tag == link_tag {
        element.href.as_ref()
    } else {
        element.src.as_ref()
    }
}

/// The asset reference recorded for one element: the attribute value, the
/// resolved URL, and the local path derived from the URL's last segment.
pub open spec fn asset_model(
    attribute: Seq<char>,
    resolved: Seq<char>,
    category: AssetCategory,
) -> AssetRefModel {
    AssetRefModel {
        original: attribute,
        resolved_url: resolved,
        category: category,
        local_relative_path: local_path_spec(
            category,
            file_name_spec(url_last_segment(resolved), category),
        ),
    }
}

/// Appends an optional tail to a prefix: `None` swallows the whole result.
pub open spec fn opt_concat(
    prefix: Seq<AssetRefModel>,
    rest: Option<Seq<AssetRefModel>>,
) -> Option<Seq<AssetRefModel>> {
    match rest {
        Some(tail) => Some(prefix + tail),
        None => None,
    }
}

/// The references one category pass records, in document order: one per
/// element whose reference attribute is present and non-empty, each resolved
/// against the base URL. `None` when some reference fails to resolve: the
/// whole pass fails.
pub open spec fn planned_refs(
    elements: Seq<ElementModel>,
    base: Seq<char>,
    category: AssetCategory,
) -> Option<Seq<AssetRefModel>>
    decreases elements.len(),
{
    if elements.len() == 0 {
        Some(Seq::<AssetRefModel>::empty())
    } else {
        let rest = planned_refs(elements.drop_first(), base, category);
        match reference_attribute_spec(elements[0]) {
            Some(attribute) => if attribute.len() == 0 {
                rest
            } else {
                match joined_url(base, attribute) {
                    Some(resolved) => opt_concat(
                        seq![asset_model(attribute, resolved, category)],
                        rest,
                    ),
                    None => None,
                }
            },
            None => rest,
        }
    }
}

/// Every planned reference keeps a non-empty original attribute value:
/// elements with an absent or empty reference attribute are skipped.
pub proof fn lemma_planned_refs_nonempty(
    elements: Seq<ElementModel>,
    base: Seq<char>,
    category: AssetCategory,
)
    ensures
        planned_refs(elements, base, category) matches Some(p) ==> forall|k: int|
            0 <= k < p.len() ==> (#[trigger] p[k]).original.len() > 0,
    decreases elements.len(),
{
    if elements.len() > 0 {
        lemma_planned_refs_nonempty(elements.drop_first(), base, category);
    }
}

pub fn collect_category(
    html: &str,
    base_url: &str,
    selector: &str,
    category: AssetCategory,
    refs: &mut Vec<AssetReference>,
) -> (r: Result<(), WebsiteDownloaderError>)
    ensures
        r matches Ok(()) ==> planned_refs(
            matched_elements(html@, selector@),
            base_url@,
            category,
        ) matches Some(p) && refs_view(final(refs)@) == refs_view(old(refs)@) + p,
        r is Ok <==> (selector_parses(selector@) && planned_refs(
            matched_elements(html@, selector@),
            base_url@,
            category,
        ) is Some),
        r matches Err(e) ==> (e is UrlParseError || e is SelectorParseError) && (e
            is SelectorParseError <==> !selector_parses(selector@)),
{
    let elements = match select_in_markup(html, selector) {
        Ok(v) => v,
        Err(message) => {
            return Err(WebsiteDownloaderError::SelectorParseError(message));
        },
    };
    let ghost elems = elements_view(elements@);
    let ghost base0 = refs_view(refs@);
    let mut i: usize = 0;
    proof {
        assert(selector_parses(selector@));
        assert(elems.skip(0) =~= elems);
        assert(refs_view(refs@).skip(base0.len() as int) =~= Seq::<AssetRefModel>::empty());
        match planned_refs(elems, base_url@, category) {
            Some(p) => {
                assert(Seq::<AssetRefModel>::empty() + p =~= p);
            },
            None => {},
        }
        assert(refs_view(refs@).take(base0.len() as int) =~= base0);
    }
    while i < elements.len()
        invariant
            i <= elements.len(),
            selector_parses(selector@),
            elems == matched_elements(html@, selector@),
            elems == elements_view(elements@),
            elems.len() == elements@.len(),
            base0 == refs_view(old(refs)@),
            refs_view(refs@).len() >= base0.len(),
            planned_refs(elems, base_url@, category) == opt_concat(
                refs_view(refs@).skip(base0.len() as int),
                planned_refs(elems.skip(i as int), base_url@, category),
            ),
            refs_view(refs@).take(base0.len() as int) == base0,
        decreases elements.len() - i,
    {
        proof {
            assert(elems.skip(i as int).len() > 0);
            assert(elems.skip(i as int)[0] == elems[i as int]);
            assert(elems.skip(i as int).drop_first() =~= elems.skip(i as int + 1));
            assert(elems[i as int] == elements@[i as int]@);
        }
        let ghost built = refs_view(refs@).skip(base0.len() as int);
        let ghost tail_plan = planned_refs(elems.skip(i as int + 1), base_url@, category);
        let element = &elements[i];
        if let Some(attribute) = reference_attribute(element) {
            if !attribute.as_str().is_empty() {
                proof {
                    assert(reference_attribute_spec(elems[i as int]) == Some(attribute@));
                }
                let resolved = match resolve_asset_url(base_url, attribute.as_str()) {
                    Ok(u) => u,
                    Err(e) => {
                        proof {
                            assert(planned_refs(elems.skip(i as int), base_url@, category)
                                is None);
                        }
                        return Err(e);
                    },
                };
                let segment = last_path_segment(resolved.as_str());
                proof {
                    assert(opt_text_view(segment) == url_last_segment(resolved@));
                }
                let file_name = file_name_for(segment, category);
                let path = local_relative_path(category, file_name.as_str());
                let ghost pre = refs@;
                let reference = AssetReference {
                    original: attribute.clone(),
                    resolved_url: resolved,
                    category: category,
                    local_relative_path: path,
                };
                proof {
                    assert(reference@ == asset_model(attribute@, reference.resolved_url@, category));
                }
                refs.push(reference);
                proof {
                    assert(refs_view(refs@) =~= refs_view(pre).push(reference@));
                    assert(refs_view(refs@).skip(base0.len() as int) =~= built.push(reference@));
                    assert(planned_refs(elems.skip(i as int), base_url@, category) == opt_concat(
                        seq![reference@],
                        tail_plan,
                    ));
                    match tail_plan {
                        Some(t) => {
                            assert(built + (seq![reference@] + t) =~= built.push(reference@) + t);
                        },
                        None => {},
                    }
                }
            }
        }
        proof {
            assert(refs_view(refs@).take(base0.len() as int) =~= base0);
        }
        i += 1;
    }
    proof {
        assert(elems.skip(elems.len() as int) =~= Seq::<ElementModel>::empty());
        assert(planned_refs(elems, base_url@, category) == opt_concat(
            refs_view(refs@).skip(base0.len() as int),
            Some(Seq::<AssetRefModel>::empty()),
        ));
        let built_all = refs_view(refs@).skip(base0.len() as int);
        assert(built_all + Seq::<AssetRefModel>::empty() =~= built_all);
        assert(refs_view(refs@) =~= base0 + built_all);
    }
    Ok(())
}

/// The selector of each category pass, in processing order.
pub open spec fn stylesheet_selector() -> Seq<char> {
    "link[rel='stylesheet']"@
}

pub open spec fn script_selector() -> Seq<char> {
    "script[src]"@
}

pub open spec fn image_selector() -> Seq<char> {
    "img[src]"@
}

pub open spec fn video_selector() -> Seq<char> {
    "video[src], source[src]"@
}

pub open spec fn all_selectors_parse() -> bool {
    &&& selector_parses(stylesheet_selector())
    &&& selector_parses(script_selector())
    &&& selector_parses(image_selector())
    &&& selector_parses(video_selector())
}

/// The references one category pass plans for a page.
pub open spec fn category_plan(
    html: Seq<char>,
    base: Seq<char>,
    selector: Seq<char>,
    category: AssetCategory,
) -> Option<Seq<AssetRefModel>> {
    planned_refs(matched_elements(html, selector), base, category)
}

/// Concatenates two optional plans: either failing fails the whole.
pub open spec fn opt_join(
    a: Option<Seq<AssetRefModel>>,
    b: Option<Seq<AssetRefModel>>,
) -> Option<Seq<AssetRefModel>> {
    match a {
        Some(x) => match b {
            Some(y) => Some(x + y),
            None => None,
        },
        None => None,
    }
}

/// Everything a page's markup asks to download, in discovery order:
/// stylesheets, then scripts, then images, then videos. `None` when any
/// single reference fails to resolve: the whole operation fails.
pub open spec fn planned_website(html: Seq<char>, base: Seq<char>) -> Option<
    Seq<AssetRefModel>,
> {
    opt_join(
        category_plan(html, base, stylesheet_selector(), AssetCategory::Stylesheet),
        opt_join(
            category_plan(html, base, script_selector(), AssetCategory::Script),
            opt_join(
                category_plan(html, base, image_selector(), AssetCategory::Image),
                category_plan(html, base, video_selector(), AssetCategory::Video),
            ),
        ),
    )
}

/// Every reference a page plans keeps a non-empty original attribute value.
pub proof fn lemma_planned_website_nonempty(html: Seq<char>, base: Seq<char>)
    ensures
        planned_website(html, base) matches Some(p) ==> forall|k: int|
            0 <= k < p.len() ==> (#[trigger] p[k]).original.len() > 0,
{
    lemma_planned_refs_nonempty(
        matched_elements(html, stylesheet_selector()),
        base,
        AssetCategory::Stylesheet,
    );
    lemma_planned_refs_nonempty(
        matched_elements(html, script_selector()),
        base,
        AssetCategory::Script,
    );
    lemma_planned_refs_nonempty(
        matched_elements(html, image_selector()),
        base,
        AssetCategory::Image,
    );
    lemma_planned_refs_nonempty(
        matched_elements(html, video_selector()),
        base,
        AssetCategory::Video,
    );
}

/// Discovers every asset the page references: for each category pass, the
/// elements its selector matches, each present, non-empty reference
/// attribute resolved against the page's URL and given its local path. An
/// element without the attribute is skipped and is no error; a reference
/// that fails to resolve fails the whole plan.
pub fn plan_assets(html: &str, base_url: &str) -> (r: Result<
    Vec<AssetReference>,
    WebsiteDownloaderError,
>)
    ensures
        r matches Ok(refs) ==> planned_website(html@, base_url@) == Some(refs_view(refs@)),
        r is Ok <==> (all_selectors_parse() && planned_website(html@, base_url@) is Some),
        r matches Err(e) ==> (e is UrlParseError || e is SelectorParseError),
        r matches Ok(refs) ==> forall|k: int|
            0 <= k < refs@.len() ==> (#[trigger] refs@[k]).original@.len() > 0,
{
    let mut refs: Vec<AssetReference> = Vec::new();
    if let Err(e) = collect_category(
        html,
        base_url,
        "link[rel='stylesheet']",
        AssetCategory::Stylesheet,
        &mut refs,
    ) {
        return Err(e);
    }
    let ghost p1 = refs_view(refs@);
    if let Err(e) = collect_category(html, base_url, "script[src]", AssetCategory::Script, &mut refs) {
        return Err(e);
    }
    let ghost p2 = refs_view(refs@).skip(p1.len() as int);
    if let Err(e) = collect_category(html, base_url, "img[src]", AssetCategory::Image, &mut refs) {
        return Err(e);
    }
    let ghost p3 = refs_view(refs@).skip(p1.len() + p2.len() as int);
    if let Err(e) = collect_category(
        html,
        base_url,
        "video[src], source[src]",
        AssetCategory::Video,
        &mut refs,
    ) {
        return Err(e);
    }
    let ghost p4 = refs_view(refs@).skip(p1.len() + p2.len() + p3.len() as int);
    proof {
        assert(refs_view(refs@) =~= p1 + p2 + p3 + p4);
        assert(p1 + (p2 + (p3 + p4)) =~= p1 + p2 + p3 + p4);
        assert(planned_website(html@, base_url@) == Some(refs_view(refs@)));
        lemma_planned_website_nonempty(html@, base_url@);
        assert forall|k: int| 0 <= k < refs@.len() implies (#[trigger] refs@[k]).original@.len()
            > 0 by {
            assert(refs_view(refs@)[k] == refs@[k]@);
        }
    }
    Ok(refs)
}

/// The substitution each saved asset contributes to the rewrite: its
/// original reference text becomes its local relative path.
pub open spec fn replacement_model_of(a: AssetRefModel) -> ReplacementModel {
    ReplacementModel { original_text: a.original, replacement_text: a.local_relative_path }
}

/// The replacements of a plan, in discovery order.
pub open spec fn replacements_of(p: Seq<AssetRefModel>) -> Seq<ReplacementModel> {
    p.map_values(|a: AssetRefModel| replacement_model_of(a))
}

/// Records one replacement per discovered asset, in discovery order.
pub fn replacements_for(refs: &Vec<AssetReference>) -> (r: Vec<Replacement>)
    ensures
        replacements_view(r@) == replacements_of(refs_view(refs@)),
{
    let mut out: Vec<Replacement> = Vec::new();
    let mut i: usize = 0;
    while i < refs.len()
        invariant
            i <= refs@.len(),
            replacements_view(out@) == replacements_of(refs_view(refs@).take(i as int)),
        decreases refs@.len() - i,
    {
        let a = &refs[i];
        let ghost out_pre = out@;
        out.push(
            Replacement {
                original_text: a.original.clone(),
                replacement_text: a.local_relative_path.clone(),
            },
        );
        proof {
            let rv = refs_view(refs@);
            assert(rv.len() == refs@.len());
            assert(replacements_view(out_pre).len() == out_pre.len());
            assert(replacements_of(rv.take(i as int)).len() == i as int);
            assert(out_pre.len() == i as int);
            assert(out@ == out_pre.push(out@[i as int]));
            assert(out@[i as int]@ == replacement_model_of(rv[i as int]));
            assert(rv.take(i as int + 1) =~= rv.take(i as int).push(rv[i as int]));
            assert forall|j: int| 0 <= j < i + 1 implies replacements_view(out@)[j]
                == replacements_of(rv.take(i as int + 1))[j] by {
                if j < i {
                    assert(out@[j] == out_pre[j]);
                    assert(replacements_view(out_pre)[j] == replacements_of(rv.take(i as int))[j]);
                }
            }
            assert(replacements_view(out@) =~= replacements_of(rv.take(i as int + 1)));
        }
        i += 1;
    }
    proof {
        assert(refs_view(refs@).take(refs@.len() as int) =~= refs_view(refs@));
    }
    out
}

} // verus!
