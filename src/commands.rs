//! What the host shows of commands: search results and command summaries.
use vstd::prelude::*;
use crate::index::{is_title_match, sorted_by_score, CommandSearchResult, ScriptManager};

verus! {

/// The fields of a command that a search result shows.
pub struct SearchResultCommandInfo {
    pub id: String,
    pub title: String,
    pub description: String,
}

/// One entry of the list that `searchCommands` returns.
pub struct SearchResult {
    pub command: SearchResultCommandInfo,
    pub score: isize,
    pub matched_indices: Vec<usize>,
}

/// A summary of a command and its folder.
pub struct Script<'a> {
    pub id: &'a str,
    pub title: &'a str,
    pub description: &'a str,
    pub location: &'a str,
}

/// `out` shows the match `m`.
pub open spec fn shows(out: SearchResult, m: CommandSearchResult) -> bool {
    &&& out.command.id@ == m.command.id@
    &&& out.command.title@ == m.command.info.title@
    &&& out.command.description@ == m.command.info.description@
    &&& out.score == m.score
    &&& out.matched_indices@ == m.matched_indices@
}

/// The search results for `search_term`, best first, as the host shows them.
pub fn search_commands(manager: &ScriptManager, search_term: &str) -> (r: Vec<SearchResult>)
    requires
        manager.wf(),
    ensures
        exists|ms: Seq<CommandSearchResult>|
            {
                &&& ms.len() == r@.len()
                &&& sorted_by_score(ms)
                &&& forall|k: int|
                    0 <= k < ms.len() ==> shows(r@[k], ms[k]) && manager.commands().contains(
                        *ms[k].command,
                    ) && is_title_match(search_term@, ms[k])
                &&& forall|i: int|
                    0 <= i < manager.commands().len() && crate::index::fuzzy_best_match(
                        search_term@,
                        manager.commands()[i].info.title@,
                    ) is Some ==> exists|k: int| 0 <= k < ms.len() && *ms[k].command == manager.commands()[i]
                &&& forall|k: int, l: int|
                    0 <= k < ms.len() && 0 <= l < ms.len() && k != l ==> *ms[k].command != *ms[l].command
            },
{
    let matches = manager.find_commands_by_title(search_term);
    let mut out: Vec<SearchResult> = Vec::new();
    let mut k: usize = 0;
    while k < matches.len()
        invariant
            k <= matches@.len(),
            out@.len() == k,
            forall|j: int| 0 <= j < k ==> shows(out@[j], matches@[j]),
        decreases matches@.len() - k,
    {
        let m = &matches[k];
        let mut indices: Vec<usize> = Vec::new();
        let mut t: usize = 0;
        while t < m.matched_indices.len()
            invariant
                t <= m.matched_indices@.len(),
                indices@ == m.matched_indices@.subrange(0, t as int),
            decreases m.matched_indices@.len() - t,
        {
            indices.push(m.matched_indices[t]);
            t += 1;
        }
        assert(indices@ =~= m.matched_indices@);
        out.push(
            SearchResult {
                command: SearchResultCommandInfo {
                    id: m.command.id.clone(),
                    title: m.command.info.title.clone(),
                    description: m.command.info.description.clone(),
                },
                score: m.score,
                matched_indices: indices,
            },
        );
        k += 1;
    }
    assert(matches@.len() == out@.len());
    out
}

} // verus!
