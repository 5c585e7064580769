//! The editor's keyboard shortcuts: from the keys of one frame and the editor
//! state to the actions to run, in order, and the next state.

use vstd::prelude::*;

verus! {

/// The keys of one frame: the modifiers held, the keys pressed, and what the
/// editor can tell beforehand (whether undo and redo have something to do,
/// whether the graph has nodes, whether it runs on macOS).
#[derive(Clone, Copy, Debug)]
pub struct KeyFrame {
    pub command: bool,
    pub shift: bool,
    pub s: bool,
    pub o: bool,
    pub z: bool,
    pub f: bool,
    pub h: bool,
    pub n: bool,
    pub a: bool,
    pub d: bool,
    pub escape: bool,
    pub enter: bool,
    pub can_undo: bool,
    pub can_redo: bool,
    pub has_nodes: bool,
    pub mac: bool,
}

/// What the shortcuts read and change of the editor.
#[derive(Clone, Copy, Debug, PartialEq, Eq, Structural)]
pub struct ShortcutState {
    pub show_search: bool,
    pub show_replace: bool,
    pub filter_active: bool,
    pub has_selection: bool,
    /// How many sub-graphs deep the canvas shows.
    pub subgraph_depth: usize,
    pub search_results: usize,
    pub search_index: usize,
}

/// An action for the editor to run.
#[derive(Clone, Copy, Debug, PartialEq, Eq, Structural)]
pub enum ShortcutAction {
    Save,
    Open,
    Undo,
    Redo,
    /// The canvas filter was switched; refresh what it shows.
    FilterToggled,
    /// Ask before starting a new project.
    ConfirmNewProject,
    SelectAll,
    DuplicateSelection,
    ZoomToFit,
    /// The search bar was closed: clear the query, the replacement and the results.
    SearchClosed,
    ExitSubgraph,
    /// Show the search result at the (new) search index.
    FocusSearchResult,
}

/// `[a]` when `c` holds, else nothing.
pub open spec fn when(c: bool, a: ShortcutAction) -> Seq<ShortcutAction> {
    if c {
        seq![a]
    } else {
        seq![]
    }
}

/// Whether the replace shortcut is pressed: command+shift+H on macOS,
/// command+H elsewhere.
pub open spec fn replace_pressed(k: KeyFrame) -> bool {
    if k.mac {
        k.command && k.shift && k.h
    } else {
        k.command && k.h
    }
}

/// The state after the shortcuts of frame `k`, taken in order.
pub open spec fn after_frame(k: KeyFrame, s: ShortcutState) -> ShortcutState {
    let undo = k.command && !k.shift && k.z;
    let redo = k.command && k.shift && k.z;
    let sel1 = s.has_selection && !(undo && k.can_undo) && !(redo && k.can_redo);
    let search1 = s.show_search || (k.command && k.f) || replace_pressed(k);
    let replace1 = s.show_replace || replace_pressed(k);
    let filter1 = if k.command && k.shift && k.f { !s.filter_active } else { s.filter_active };
    let sel2 = if k.command && k.a { k.has_nodes } else { sel1 };
    let close = k.escape && search1;
    let exit = k.escape && !search1 && s.subgraph_depth > 0;
    let search2 = search1 && !close;
    let results = if close { 0 } else { s.search_results };
    let next = search2 && results > 0 && k.enter;
    ShortcutState {
        show_search: search2,
        show_replace: replace1 && !close,
        filter_active: filter1,
        has_selection: sel2,
        subgraph_depth: if exit { (s.subgraph_depth - 1) as usize } else { s.subgraph_depth },
        search_results: results,
        search_index: if next { ((s.search_index + 1) % (results as int)) as usize } else { s.search_index },
    }
}

/// The actions of frame `k`, in the order the editor runs them.
pub open spec fn frame_actions(k: KeyFrame, s: ShortcutState) -> Seq<ShortcutAction> {
    let undo = k.command && !k.shift && k.z;
    let redo = k.command && k.shift && k.z;
    let sel1 = s.has_selection && !(undo && k.can_undo) && !(redo && k.can_redo);
    let search1 = s.show_search || (k.command && k.f) || replace_pressed(k);
    let sel2 = if k.command && k.a { k.has_nodes } else { sel1 };
    let close = k.escape && search1;
    let exit = k.escape && !search1 && s.subgraph_depth > 0;
    let results = if close { 0 } else { s.search_results };
    when(k.command && !k.shift && k.s, ShortcutAction::Save) + when(k.command && k.o, ShortcutAction::Open)
        + when(undo, ShortcutAction::Undo) + when(redo, ShortcutAction::Redo)
        + when(k.command && k.shift && k.f, ShortcutAction::FilterToggled)
        + when(k.command && k.n, ShortcutAction::ConfirmNewProject)
        + when(k.command && k.a, ShortcutAction::SelectAll)
        + when(k.command && k.d && sel2, ShortcutAction::DuplicateSelection)
        + when(!search1 && !k.command && k.f, ShortcutAction::ZoomToFit)
        + when(close, ShortcutAction::SearchClosed)
        + when(exit, ShortcutAction::ExitSubgraph)
        + when(search1 && !close && results > 0 && k.enter, ShortcutAction::FocusSearchResult)
}

fn add_when(v: &mut Vec<ShortcutAction>, c: bool, a: ShortcutAction)
    ensures
        final(v)@ == old(v)@ + when(c, a),
{
    if c {
        v.push(a);
    }
    assert(v@ =~= old(v)@ + when(c, a));
}

/// Whether Enter moves to the next search result in frame `k`.
pub open spec fn advances(k: KeyFrame, s: ShortcutState) -> bool {
    let search1 = s.show_search || (k.command && k.f) || replace_pressed(k);
    let close = k.escape && search1;
    search1 && !close && s.search_results > 0 && k.enter
}

/// Runs the shortcuts of one frame: updates the state and returns the
/// actions for the editor to run, in order (see `frame_actions`).
pub fn handle_shortcuts(k: &KeyFrame, s: &mut ShortcutState) -> (actions: Vec<ShortcutAction>)
    requires
        advances(*k, *old(s)) ==> old(s).search_index < usize::MAX,
    ensures
        *final(s) == after_frame(*k, *old(s)),
        actions@ == frame_actions(*k, *old(s)),
{
    let undo = k.command && !k.shift && k.z;
    let redo = k.command && k.shift && k.z;
    let sel1 = s.has_selection && !(undo && k.can_undo) && !(redo && k.can_redo);
    let replace = if k.mac {
        k.command && k.shift && k.h
    } else {
        k.command && k.h
    };
    let search1 = s.show_search || (k.command && k.f) || replace;
    let replace1 = s.show_replace || replace;
    let toggle = k.command && k.shift && k.f;
    let filter1 = if toggle { !s.filter_active } else { s.filter_active };
    let sel2 = if k.command && k.a { k.has_nodes } else { sel1 };
    let close = k.escape && search1;
    let exit = k.escape && !search1 && s.subgraph_depth > 0;
    let results = if close { 0 } else { s.search_results };
    let next = search1 && !close && results > 0 && k.enter;

    let mut out: Vec<ShortcutAction> = Vec::new();
    add_when(&mut out, k.command && !k.shift && k.s, ShortcutAction::Save);
    assert(out@ =~= when(k.command && !k.shift && k.s, ShortcutAction::Save));
    add_when(&mut out, k.command && k.o, ShortcutAction::Open);
    add_when(&mut out, undo, ShortcutAction::Undo);
    add_when(&mut out, redo, ShortcutAction::Redo);
    add_when(&mut out, toggle, ShortcutAction::FilterToggled);
    add_when(&mut out, k.command && k.n, ShortcutAction::ConfirmNewProject);
    add_when(&mut out, k.command && k.a, ShortcutAction::SelectAll);
    add_when(&mut out, k.command && k.d && sel2, ShortcutAction::DuplicateSelection);
    add_when(&mut out, !search1 && !k.command && k.f, ShortcutAction::ZoomToFit);
    add_when(&mut out, close, ShortcutAction::SearchClosed);
    add_when(&mut out, exit, ShortcutAction::ExitSubgraph);
    add_when(&mut out, next, ShortcutAction::FocusSearchResult);

    let depth = if exit { s.subgraph_depth - 1 } else { s.subgraph_depth };
    let index = if next { (s.search_index + 1) % results } else { s.search_index };
    *s = ShortcutState {
        show_search: search1 && !close,
        show_replace: replace1 && !close,
        filter_active: filter1,
        has_selection: sel2,
        subgraph_depth: depth,
        search_results: results,
        search_index: index,
    };
    out
}

/// A search index that points at a result keeps doing so across a frame of
/// shortcuts (closing the search empties the results).
pub proof fn law_search_index_stays_in_range(k: KeyFrame, s: ShortcutState)
    requires
        s.search_results > 0 ==> s.search_index < s.search_results,
    ensures
        after_frame(k, s).search_results > 0 ==> after_frame(k, s).search_index < after_frame(k, s).search_results,
{
}

} // verus!
