use vstd::prelude::*;

use crate::assets::{
    all_selectors_parse, plan_assets, planned_website, refs_view, replacement_model_of,
    replacements_for, replacements_of, replacements_view, AssetReference,
};
use crate::errors::WebsiteDownloaderError;
use crate::rewrite::{rewrite_all_spec, rewrite_page};

verus! {

/// Where a run stands. The operation is strictly sequential: one fetch, one
/// directory pass, one asset at a time, one final write.
#[derive(Clone, Copy, Debug, PartialEq, Eq, Structural)]
pub enum RunStatus {
    FetchingPage,
    PreparingDirectories,
    SavingAssets,
    WritingIndex,
    Done,
    Failed,
}

/// What the driver reports back after performing the requested action.
/// `StepFailed` stands for any failed fetch, create or write, with the
/// error it produced.
#[derive(Debug)]
pub enum RunEvent {
    PageFetched(String),
    DirectoriesReady,
    AssetSaved,
    IndexWritten,
    StepFailed(WebsiteDownloaderError),
}

/// What the driver is asked to do next. All input/output lives behind these
/// actions; the run itself only decides.
#[derive(Debug)]
pub enum RunAction {
    /// Issue a GET for the page itself and report its text.
    FetchPage(String),
    /// Create the destination directory and the four category
    /// subdirectories, whether or not any asset will land in them.
    PrepareDirectories,
    /// Fetch the asset's bytes and write them under the destination
    /// directory at the given relative path, overwriting an existing file.
    SaveAsset { resolved_url: String, local_relative_path: String },
    /// Write the rewritten page text to `index.html` at the destination,
    /// overwriting an existing file.
    WriteIndex(String),
    /// The run failed; report the error and stop. Files already written
    /// stay as they are.
    Abort(WebsiteDownloaderError),
    /// The run succeeded; nothing is left to do.
    Finished,
}

/// The rewritten page text of a successfully planned page: every discovered
/// reference replaced, in discovery order, by its local relative path.
pub open spec fn rewritten_page_spec(html: Seq<char>, base: Seq<char>) -> Seq<char> {
    match planned_website(html, base) {
        Some(p) => rewrite_all_spec(html, replacements_of(p)),
        None => html,
    }
}

/// One in-progress save of a web page. The driver performs each returned
/// action and feeds the outcome back into `step` until it is handed
/// `Finished` or `Abort`.
pub struct RunState {
    pub source_url: String,
    pub page_text: String,
    pub references: Vec<AssetReference>,
    pub saved: usize,
    pub status: RunStatus,
}

impl RunState {
    /// The state's internal soundness: the save cursor stays inside the
    /// plan, and every planned reference keeps a non-empty original, so the
    /// final substitution pass is well formed.
    pub open spec fn wf(self) -> bool {
        &&& self.saved <= self.references@.len()
        &&& (self.status is SavingAssets ==> self.saved < self.references@.len())
        &&& forall|k: int|
            0 <= k < self.references@.len() ==> (#[trigger] self.references@[k]).original@.len()
                > 0
    }

    /// Which report fits which phase. No event fits `Done` or `Failed`: a
    /// finished or aborted run takes no further step.
    pub open spec fn event_permitted(self, event: RunEvent) -> bool {
        match event {
            RunEvent::PageFetched(_) => self.status is FetchingPage,
            RunEvent::DirectoriesReady => self.status is PreparingDirectories,
            RunEvent::AssetSaved => self.status is SavingAssets,
            RunEvent::IndexWritten => self.status is WritingIndex,
            RunEvent::StepFailed(_) => !(self.status is Done) && !(self.status is Failed),
        }
    }

    /// Begins a run for one page.
    pub fn start(source_url: String) -> (s: RunState)
        ensures
            s.wf(),
            s.status is FetchingPage,
            s.source_url == source_url,
    {
        RunState {
            source_url,
            page_text: String::new(),
            references: Vec::new(),
            saved: 0,
            status: RunStatus::FetchingPage,
        }
    }

    /// The first thing a driver is asked to do: fetch the page itself.
    pub fn first_action(&self) -> (a: RunAction)
        requires
            self.status is FetchingPage,
        ensures
            a matches RunAction::FetchPage(u) && u@ == self.source_url@,
    {
        RunAction::FetchPage(self.source_url.clone())
    }

    /// Advances the run by one reported outcome and says what to do next.
    ///
    /// Any failure, at any phase, moves the run to `Failed` at once and
    /// asks the driver to abort with that same error: there is no retry and
    /// no skip-and-continue, and an index is never written out of a failed
    /// run. A `WriteIndex` action is issued only once every planned asset
    /// has been saved, and its text is exactly the page text with every
    /// planned replacement applied in discovery order.
    pub fn step(&mut self, event: RunEvent) -> (a: RunAction)
        requires
            old(self).wf(),
            old(self).event_permitted(event),
        ensures
            final(self).wf(),
            final(self).source_url == old(self).source_url,
            event matches RunEvent::StepFailed(err) ==> final(self).status is Failed && a
                == RunAction::Abort(err),
            event matches RunEvent::PageFetched(text) ==> {
                &&& final(self).page_text == text
                &&& final(self).status is PreparingDirectories
                &&& a == RunAction::PrepareDirectories
            },
            event is DirectoriesReady ==> {
                let html = old(self).page_text@;
                let base = old(self).source_url@;
                &&& final(self).page_text == old(self).page_text
                &&& (!(all_selectors_parse() && planned_website(html, base) is Some) ==> {
                    &&& final(self).status is Failed
                    &&& a matches RunAction::Abort(e) && (e is UrlParseError || e
                        is SelectorParseError)
                })
                &&& (all_selectors_parse() ==> (planned_website(html, base) matches Some(p) ==> {
                    &&& refs_view(final(self).references@) == p
                    &&& (p.len() == 0 ==> {
                        &&& final(self).status is WritingIndex
                        &&& a matches RunAction::WriteIndex(t) && t@ == rewritten_page_spec(
                            html,
                            base,
                        )
                    })
                    &&& (p.len() > 0 ==> {
                        &&& final(self).status is SavingAssets
                        &&& final(self).saved == 0
                        &&& a matches (RunAction::SaveAsset { resolved_url, local_relative_path })
                            && resolved_url@ == p[0].resolved_url && local_relative_path@
                            == p[0].local_relative_path
                    })
                }))
            },
            event is AssetSaved ==> {
                &&& final(self).saved == old(self).saved + 1
                &&& final(self).references == old(self).references
                &&& final(self).page_text == old(self).page_text
                &&& (old(self).saved + 1 < old(self).references@.len() ==> {
                    &&& final(self).status is SavingAssets
                    &&& a matches (RunAction::SaveAsset { resolved_url, local_relative_path })
                        && resolved_url@ == refs_view(old(self).references@)[old(self).saved
                        + 1].resolved_url && local_relative_path@ == refs_view(
                        old(self).references@,
                    )[old(self).saved + 1].local_relative_path
                })
                &&& (old(self).saved + 1 == old(self).references@.len() ==> {
                    &&& final(self).status is WritingIndex
                    &&& a matches RunAction::WriteIndex(t) && t@ == rewrite_all_spec(
                        old(self).page_text@,
                        replacements_of(refs_view(old(self).references@)),
                    )
                })
            },
            event is IndexWritten ==> final(self).status is Done && a == RunAction::Finished,
            a matches (RunAction::SaveAsset { resolved_url, local_relative_path })
                ==> final(self).status is SavingAssets,
            a matches RunAction::WriteIndex(t)
                ==> (event is DirectoriesReady && final(self).references@.len() == 0)
                || (event is AssetSaved && old(self).saved + 1 == old(self).references@.len()),
    {
        match event {
            RunEvent::PageFetched(text) => {
                self.page_text = text;
                self.status = RunStatus::PreparingDirectories;
                RunAction::PrepareDirectories
            },
            RunEvent::DirectoriesReady => {
                let planned = plan_assets(self.page_text.as_str(), self.source_url.as_str());
                match planned {
                    Ok(refs) => {
                        self.references = refs;
                        self.saved = 0;
                        if self.references.len() == 0 {
                            self.status = RunStatus::WritingIndex;
                            proof {
                                assert(refs_view(self.references@).len() == 0);
                                assert(rewritten_page_spec(self.page_text@, self.source_url@)
                                    == self.page_text@);
                            }
                            RunAction::WriteIndex(self.page_text.clone())
                        } else {
                            self.status = RunStatus::SavingAssets;
                            let first = &self.references[0];
                            proof {
                                assert(refs_view(self.references@)[0] == self.references@[0]@);
                            }
                            RunAction::SaveAsset {
                                resolved_url: first.resolved_url.clone(),
                                local_relative_path: first.local_relative_path.clone(),
                            }
                        }
                    },
                    Err(e) => {
                        self.status = RunStatus::Failed;
                        RunAction::Abort(e)
                    },
                }
            },
            RunEvent::AssetSaved => {
                let total = self.references.len();
                proof {
                    assert(self.saved < total);
                }
                self.saved = self.saved + 1;
                if self.saved < self.references.len() {
                    let next = &self.references[self.saved];
                    proof {
                        assert(refs_view(self.references@)[self.saved as int]
                            == self.references@[self.saved as int]@);
                    }
                    RunAction::SaveAsset {
                        resolved_url: next.resolved_url.clone(),
                        local_relative_path: next.local_relative_path.clone(),
                    }
                } else {
                    let replacements = replacements_for(&self.references);
                    proof {
                        assert(replacements_view(replacements@).len() == replacements@.len());
                        assert(replacements_of(refs_view(self.references@)).len() == refs_view(
                            self.references@,
                        ).len());
                        assert(refs_view(self.references@).len() == self.references@.len());
                        assert forall|k: int| 0 <= k < replacements@.len() implies (
                        #[trigger] replacements@[k]).original_text@.len() > 0 by {
                            assert(replacements_view(replacements@)[k] == replacements@[k]@);
                            assert(replacements_of(refs_view(self.references@))[k]
                                == replacement_model_of(refs_view(self.references@)[k]));
                            assert(refs_view(self.references@)[k] == self.references@[k]@);
                        }
                    }
                    let rewritten = rewrite_page(self.page_text.as_str(), &replacements);
                    self.status = RunStatus::WritingIndex;
                    RunAction::WriteIndex(rewritten)
                }
            },
            RunEvent::IndexWritten => {
                self.status = RunStatus::Done;
                RunAction::Finished
            },
            RunEvent::StepFailed(err) => {
                self.status = RunStatus::Failed;
                RunAction::Abort(err)
            },
        }
    }
}

/// A failed or finished run is terminal: no event fits it, so in particular
/// no index write and no further save can follow an abort.
pub proof fn lemma_run_is_terminal(s: RunState, event: RunEvent)
    requires
        s.status is Failed || s.status is Done,
    ensures
        !s.event_permitted(event),
{
}

/// The plan and the rewritten page are functions of the fetched page text
/// and the page's URL alone: two runs over the same inputs decide the same
/// downloads, the same local paths and the same final text, so repeating
/// the operation with unchanged remote content overwrites every file with
/// identical bytes.
pub proof fn lemma_run_deterministic(
    html_a: Seq<char>,
    base_a: Seq<char>,
    html_b: Seq<char>,
    base_b: Seq<char>,
)
    requires
        html_a == html_b,
        base_a == base_b,
    ensures
        planned_website(html_a, base_a) == planned_website(html_b, base_b),
        rewritten_page_spec(html_a, base_a) == rewritten_page_spec(html_b, base_b),
{
}

} // verus!
