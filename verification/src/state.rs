//! What the server remembers between requests.
use crate::answer::{answers_readable, sound_result};
use crate::ask::numbered_before;
use crate::text::text_view;
use vstd::prelude::*;

verus! {

/// A question that waits for the desktop app to pick it up.
pub struct PendingAsk {
    pub id: String,
    pub project_path: String,
    pub question: String,
}

/// An answer that waits for the request that asked.
pub struct AskResult {
    pub id: String,
    pub status: u16,
    pub body: String,
}

/// For each store, the text of the error with which its lock fails, if it does.
pub struct Faults {
    pub current_project: Option<String>,
    pub projects: Option<String>,
    pub pending_clips: Option<String>,
    pub pending_asks: Option<String>,
    pub ask_results: Option<String>,
}

/// The stores that the requests share.
pub struct ServerState {
    /// The path of the project that is open.
    pub current_project: String,
    /// The name and the path of each known project.
    pub projects: Vec<(String, String)>,
    /// The project path and the file path of each clip that was not picked up yet.
    pub pending_clips: Vec<(String, String)>,
    pub pending_asks: Vec<PendingAsk>,
    pub ask_results: Vec<AskResult>,
    /// The number of the next question.
    pub ask_counter: u64,
    pub faults: Faults,
}

#[verifier::ext_equal]
pub ghost struct PendingAskView {
    pub id: Seq<char>,
    pub project_path: Seq<char>,
    pub question: Seq<char>,
}

#[verifier::ext_equal]
pub ghost struct AskResultView {
    pub id: Seq<char>,
    pub status: u16,
    pub body: Seq<char>,
}

#[verifier::ext_equal]
pub ghost struct FaultsView {
    pub current_project: Option<Seq<char>>,
    pub projects: Option<Seq<char>>,
    pub pending_clips: Option<Seq<char>>,
    pub pending_asks: Option<Seq<char>>,
    pub ask_results: Option<Seq<char>>,
}

#[verifier::ext_equal]
pub ghost struct ServerView {
    pub current_project: Seq<char>,
    pub projects: Seq<(Seq<char>, Seq<char>)>,
    pub pending_clips: Seq<(Seq<char>, Seq<char>)>,
    pub pending_asks: Seq<PendingAskView>,
    pub ask_results: Seq<AskResultView>,
    pub ask_counter: u64,
    pub faults: FaultsView,
}

/// Pairs of texts, as the contracts see them.
pub open spec fn pairs_view(pairs: Seq<(String, String)>) -> Seq<(Seq<char>, Seq<char>)> {
    pairs.map_values(|pair: (String, String)| (pair.0@, pair.1@))
}

pub open spec fn asks_view(asks: Seq<PendingAsk>) -> Seq<PendingAskView> {
    asks.map_values(|ask: PendingAsk| ask@)
}

pub open spec fn results_view(results: Seq<AskResult>) -> Seq<AskResultView> {
    results.map_values(|result: AskResult| result@)
}

impl View for PendingAsk {
    type V = PendingAskView;

    open spec fn view(&self) -> PendingAskView {
        PendingAskView {
            id: self.id@,
            project_path: self.project_path@,
            question: self.question@,
        }
    }
}

impl View for AskResult {
    type V = AskResultView;

    open spec fn view(&self) -> AskResultView {
        AskResultView { id: self.id@, status: self.status, body: self.body@ }
    }
}

impl View for Faults {
    type V = FaultsView;

    open spec fn view(&self) -> FaultsView {
        FaultsView {
            current_project: text_view(self.current_project),
            projects: text_view(self.projects),
            pending_clips: text_view(self.pending_clips),
            pending_asks: text_view(self.pending_asks),
            ask_results: text_view(self.ask_results),
        }
    }
}

impl View for ServerState {
    type V = ServerView;

    open spec fn view(&self) -> ServerView {
        ServerView {
            current_project: self.current_project@,
            projects: pairs_view(self.projects@),
            pending_clips: pairs_view(self.pending_clips@),
            pending_asks: asks_view(self.pending_asks@),
            ask_results: results_view(self.ask_results@),
            ask_counter: self.ask_counter,
            faults: self.faults@,
        }
    }
}

impl FaultsView {
    /// No lock fails.
    pub open spec fn none() -> FaultsView {
        FaultsView {
            current_project: None,
            projects: None,
            pending_clips: None,
            pending_asks: None,
            ask_results: None,
        }
    }
}

/// How many answers are kept at most.
pub const MAX_ASK_RESULTS: usize = 100;

impl ServerView {
    /// The state of a server that has served nothing yet.
    pub open spec fn initial() -> ServerView {
        ServerView {
            current_project: Seq::empty(),
            projects: Seq::empty(),
            pending_clips: Seq::empty(),
            pending_asks: Seq::empty(),
            ask_results: Seq::empty(),
            ask_counter: 1,
            faults: FaultsView::none(),
        }
    }

    /// What holds of what the requests have stored: few enough answers are kept, no two
    /// for one question, each made for its question; every known project has a path; and
    /// the path of the open project has no backslash.
    pub open spec fn stores_sound(self) -> bool {
        &&& self.ask_results.len() <= MAX_ASK_RESULTS
        &&& forall|i: int, j: int|
            0 <= i < j < self.ask_results.len() ==> (#[trigger] self.ask_results[i]).id != (
            #[trigger] self.ask_results[j]).id
        &&& forall|i: int|
            0 <= i < self.ask_results.len() ==> sound_result(#[trigger] self.ask_results[i])
        &&& forall|i: int|
            0 <= i < self.projects.len() ==> (#[trigger] self.projects[i]).1.len() > 0
        &&& !self.current_project.contains('\\')
    }

    /// What holds of the questions that wait, as long as the numbers of the questions have
    /// not started again: no two have one id, and each has a number that was given out.
    pub open spec fn asks_numbered(self) -> bool {
        &&& forall|i: int, j: int|
            0 <= i < j < self.pending_asks.len() ==> (#[trigger] self.pending_asks[i]).id != (
            #[trigger] self.pending_asks[j]).id
        &&& forall|i: int|
            0 <= i < self.pending_asks.len() ==> numbered_before(
                (#[trigger] self.pending_asks[i]).id,
                self.ask_counter,
            )
    }

    /// What holds of every state that requests lead to.
    pub open spec fn well_formed(self) -> bool {
        self.stores_sound() && self.asks_numbered()
    }
}

impl ServerState {
    /// The state of a server that has served nothing yet.
    pub fn new() -> (state: ServerState)
        ensures
            state@ == ServerView::initial(),
            state@.well_formed(),
            answers_readable(state@),
    {
        ServerState {
            current_project: String::new(),
            projects: Vec::new(),
            pending_clips: Vec::new(),
            pending_asks: Vec::new(),
            ask_results: Vec::new(),
            ask_counter: 1,
            faults: Faults {
                current_project: None,
                projects: None,
                pending_clips: None,
                pending_asks: None,
                ask_results: None,
            },
        }
    }
}

} // verus!
