//! Texts of the editor's interface: node titles and tooltips, the titles and
//! regions of the dockable panels, and the questions asked before a
//! destructive action.

use vstd::prelude::*;
use crate::csv::push_str;
use crate::model::{ActionV, CompareOp, KindV, Node, NodeType, NodeV, OptionV, ValueV, VariableValue, node_view, value_view};
use crate::text::{decimal, int_decimal, push_decimal, push_int};

verus! {

/// What `format!("{:?}", s)` writes for a string: the string in double quotes,
/// with quotes, backslashes and characters that are not printable escaped.
pub uninterp spec fn debug_text(s: Seq<char>) -> Seq<char>;

/// `format!("{:?}", s)` of a string slice (the `Debug` text of `str`, as std
/// writes it); the result is taken as a function of `s` alone, with no claim
/// on its characters.
#[verifier::external_body]
fn debug_quoted(s: &str) -> (r: String)
    ensures
        r@ == debug_text(s@),
{
    format!("{:?}", s)
}

/// The title of a node: the name of its type.
pub open spec fn node_title(t: KindV) -> Seq<char> {
    match t {
        KindV::Start => "Start"@,
        KindV::Dialogue(_) => "Dialogue"@,
        KindV::Choice(..) => "Choice"@,
        KindV::Condition(_) => "Condition"@,
        KindV::Event(_) => "Event"@,
        KindV::Random(_) => "Random"@,
        KindV::End(_) => "End"@,
        KindV::SubGraph(..) => "Sub-Graph"@,
    }
}

impl Node {
    /// The title of the node: the name of its type.
    pub fn title(&self) -> (r: &'static str)
        ensures
            r@ == node_title(node_view(*self).kind),
    {
        match &self.node_type {
            NodeType::Start => "Start",
            NodeType::Dialogue(_) => "Dialogue",
            NodeType::Choice(_) => "Choice",
            NodeType::Condition(_) => "Condition",
            NodeType::Event(_) => "Event",
            NodeType::Random(_) => "Random",
            NodeType::End(_) => "End",
            NodeType::SubGraph(_) => "Sub-Graph",
        }
    }
}

/// The `Debug` name of a comparison operator.
pub open spec fn op_debug(op: CompareOp) -> Seq<char> {
    match op {
        CompareOp::Eq => "Eq"@,
        CompareOp::Neq => "Neq"@,
        CompareOp::Gt => "Gt"@,
        CompareOp::Lt => "Lt"@,
        CompareOp::Gte => "Gte"@,
        CompareOp::Lte => "Lte"@,
        CompareOp::Contains => "Contains"@,
    }
}

/// The `Debug` text of a value; a floating-point value shows its text.
pub open spec fn value_debug(v: ValueV) -> Seq<char> {
    match v {
        ValueV::Bool(b) => "Bool("@ + (if b { "true"@ } else { "false"@ }) + ")"@,
        ValueV::Int(i) => "Int("@ + int_decimal(i as int) + ")"@,
        ValueV::Float(f) => "Float("@ + f + ")"@,
        ValueV::Text(t) => "Text("@ + debug_text(t) + ")"@,
    }
}

pub open spec fn choice_lines(opts: Seq<OptionV>, k: int) -> Seq<char>
    decreases k,
{
    if k <= 0 {
        seq![]
    } else {
        choice_lines(opts, k - 1) + "\n  "@ + decimal(k as nat) + ". "@ + opts[k - 1].text
    }
}

pub open spec fn action_lines(acts: Seq<ActionV>, k: int) -> Seq<char>
    decreases k,
{
    if k <= 0 {
        seq![]
    } else if k == 1 {
        acts[0].key + " = "@ + value_debug(acts[0].value)
    } else {
        action_lines(acts, k - 1) + "\n"@ + acts[k - 1].key + " = "@ + value_debug(acts[k - 1].value)
    }
}

/// The tooltip of a node: the speaker in brackets and the text of a line; the
/// prompt and numbered options of a choice; the test of a condition; the
/// assignments of an event; the tag of an end; the name of a sub-graph.
pub open spec fn tooltip(n: NodeV) -> Seq<char> {
    match n.kind {
        KindV::Dialogue(d) => (if d.speaker_name.len() == 0 { seq![] } else { "["@ + d.speaker_name + "] "@ }) + d.text,
        KindV::Choice(p, opts) => p + choice_lines(opts, opts.len() as int),
        KindV::Condition(c) => c.variable_name + " "@ + op_debug(c.operator) + " "@ + value_debug(c.value),
        KindV::Event(acts) => action_lines(acts, acts.len() as int),
        KindV::End(tag) => if tag.len() == 0 { "End"@ } else { "End: "@ + tag },
        KindV::SubGraph(name, _) => "Sub-graph: "@ + name,
        _ => seq![],
    }
}

fn push_op_debug(out: &mut String, op: CompareOp)
    ensures
        final(out)@ == old(out)@ + op_debug(op),
{
    match op {
        CompareOp::Eq => push_str(out, "Eq"),
        CompareOp::Neq => push_str(out, "Neq"),
        CompareOp::Gt => push_str(out, "Gt"),
        CompareOp::Lt => push_str(out, "Lt"),
        CompareOp::Gte => push_str(out, "Gte"),
        CompareOp::Lte => push_str(out, "Lte"),
        CompareOp::Contains => push_str(out, "Contains"),
    }
}

fn push_value_debug(out: &mut String, v: &VariableValue)
    ensures
        final(out)@ == old(out)@ + value_debug(value_view(*v)),
{
    match v {
        VariableValue::Bool(b) => {
            push_str(out, "Bool(");
            if *b { push_str(out, "true"); } else { push_str(out, "false"); }
            push_str(out, ")");
        },
        VariableValue::Int(i) => {
            push_str(out, "Int(");
            push_int(out, *i);
            push_str(out, ")");
        },
        VariableValue::Float(f) => {
            push_str(out, "Float(");
            push_str(out, f.as_str());
            push_str(out, ")");
        },
        VariableValue::Text(t) => {
            push_str(out, "Text(");
            let q = debug_quoted(t.as_str());
            push_str(out, q.as_str());
            push_str(out, ")");
        },
    }
    assert(out@ =~= old(out)@ + value_debug(value_view(*v)));
}

/// The tooltip text of a node (see `tooltip`).
pub fn node_tooltip_text(node: &Node) -> (r: String)
    ensures
        r@ == tooltip(node_view(*node)),
{
    let mut out = String::new();
    match &node.node_type {
        NodeType::Dialogue(d) => {
            if d.speaker_name.as_str().unicode_len() > 0 {
                push_str(&mut out, "[");
                push_str(&mut out, d.speaker_name.as_str());
                push_str(&mut out, "] ");
            }
            push_str(&mut out, d.text.as_str());
        },
        NodeType::Choice(c) => {
            push_str(&mut out, c.prompt.as_str());
            let ghost opts = c.choices@.map_values(|o: crate::model::ChoiceOption| crate::model::option_view(o));
            let mut i: usize = 0;
            while i < c.choices.len()
                invariant
                    i <= c.choices.len(),
                    opts == c.choices@.map_values(|o: crate::model::ChoiceOption| crate::model::option_view(o)),
                    out@ == c.prompt@ + choice_lines(opts, i as int),
                decreases c.choices.len() - i,
            {
                push_str(&mut out, "\n  ");
                push_decimal(&mut out, (i as u64) + 1);
                push_str(&mut out, ". ");
                push_str(&mut out, c.choices[i].text.as_str());
                assert(out@ =~= c.prompt@ + choice_lines(opts, i + 1));
                i = i + 1;
            }
        },
        NodeType::Condition(c) => {
            push_str(&mut out, c.variable_name.as_str());
            push_str(&mut out, " ");
            push_op_debug(&mut out, c.operator);
            push_str(&mut out, " ");
            push_value_debug(&mut out, &c.value);
        },
        NodeType::Event(e) => {
            let ghost acts = e.actions@.map_values(|a: crate::model::EventAction| crate::model::action_view(a));
            let mut i: usize = 0;
            while i < e.actions.len()
                invariant
                    i <= e.actions.len(),
                    acts == e.actions@.map_values(|a: crate::model::EventAction| crate::model::action_view(a)),
                    out@ == action_lines(acts, i as int),
                decreases e.actions.len() - i,
            {
                if i > 0 {
                    push_str(&mut out, "\n");
                }
                push_str(&mut out, e.actions[i].key.as_str());
                push_str(&mut out, " = ");
                push_value_debug(&mut out, &e.actions[i].value);
                assert(out@ =~= action_lines(acts, i + 1));
                i = i + 1;
            }
        },
        NodeType::End(e) => {
            if e.tag.as_str().unicode_len() == 0 {
                push_str(&mut out, "End");
            } else {
                push_str(&mut out, "End: ");
                push_str(&mut out, e.tag.as_str());
            }
        },
        NodeType::SubGraph(s) => {
            push_str(&mut out, "Sub-graph: ");
            push_str(&mut out, s.name.as_str());
        },
        _ => {},
    }
    assert(out@ =~= tooltip(node_view(*node)));
    out
}

/// A destructive action that waits for the user's confirmation.
#[derive(Debug, Clone, Copy, PartialEq, Eq, Structural)]
pub enum PendingAction {
    NewProject,
    RestoreVersion(usize),
}

pub open spec fn pending_message(a: PendingAction) -> Seq<char> {
    match a {
        PendingAction::NewProject => "Create a new project? Unsaved changes will be lost."@,
        PendingAction::RestoreVersion(_) => "Restore this version? Current graph will be replaced."@,
    }
}

impl PendingAction {
    /// The question asked before the action.
    pub fn message(&self) -> (r: &'static str)
        ensures
            r@ == pending_message(*self),
    {
        match self {
            PendingAction::NewProject => "Create a new project? Unsaved changes will be lost.",
            PendingAction::RestoreVersion(_) => "Restore this version? Current graph will be replaced.",
        }
    }
}

/// Each dockable panel of the editor.
#[derive(Debug, Clone, Copy, PartialEq, Eq, Structural)]
pub enum DockTab {
    Canvas,
    LeftPanel,
    Inspector,
    ScriptEditor,
    Validation,
    Playtest,
    Comments,
    Bookmarks,
    Analytics,
    VersionHistory,
    Templates,
    Localization,
    VoiceGeneration,
    Collaboration,
    Barks,
    Quests,
    Timeline,
    WorldDatabase,
    WritingAssistant,
}

/// The dock region a panel opens in.
#[derive(Debug, Clone, Copy, PartialEq, Eq, Structural)]
pub enum TabRegion {
    Canvas,
    Left,
    Right,
    Bottom,
}

pub open spec fn tab_title(t: DockTab) -> Seq<char> {
    match t {
        DockTab::Canvas => "Canvas"@,
        DockTab::LeftPanel => "Project"@,
        DockTab::Inspector => "Inspector"@,
        DockTab::ScriptEditor => "Script Editor"@,
        DockTab::Validation => "Validation"@,
        DockTab::Playtest => "Playtest"@,
        DockTab::Comments => "Comments"@,
        DockTab::Bookmarks => "Bookmarks"@,
        DockTab::Analytics => "Analytics"@,
        DockTab::VersionHistory => "Version History"@,
        DockTab::Templates => "Templates"@,
        DockTab::Localization => "Localization"@,
        DockTab::VoiceGeneration => "Voice Generation"@,
        DockTab::Collaboration => "Collaboration"@,
        DockTab::Barks => "Barks"@,
        DockTab::Quests => "Quests"@,
        DockTab::Timeline => "Timeline"@,
        DockTab::WorldDatabase => "World DB"@,
        DockTab::WritingAssistant => "AI Writer"@,
    }
}

/// The canvas in the middle, the project panel on the left, the inspector,
/// script editor and writing assistant on the right, all others at the bottom.
pub open spec fn tab_region(t: DockTab) -> TabRegion {
    match t {
        DockTab::Canvas => TabRegion::Canvas,
        DockTab::LeftPanel => TabRegion::Left,
        DockTab::Inspector | DockTab::ScriptEditor | DockTab::WritingAssistant => TabRegion::Right,
        _ => TabRegion::Bottom,
    }
}

impl DockTab {
    /// The title of the panel's tab.
    pub fn title(self) -> (r: &'static str)
        ensures
            r@ == tab_title(self),
    {
        match self {
            DockTab::Canvas => "Canvas",
            DockTab::LeftPanel => "Project",
            DockTab::Inspector => "Inspector",
            DockTab::ScriptEditor => "Script Editor",
            DockTab::Validation => "Validation",
            DockTab::Playtest => "Playtest",
            DockTab::Comments => "Comments",
            DockTab::Bookmarks => "Bookmarks",
            DockTab::Analytics => "Analytics",
            DockTab::VersionHistory => "Version History",
            DockTab::Templates => "Templates",
            DockTab::Localization => "Localization",
            DockTab::VoiceGeneration => "Voice Generation",
            DockTab::Collaboration => "Collaboration",
            DockTab::Barks => "Barks",
            DockTab::Quests => "Quests",
            DockTab::Timeline => "Timeline",
            DockTab::WorldDatabase => "World DB",
            DockTab::WritingAssistant => "AI Writer",
        }
    }

    /// The region the panel opens in (see `tab_region`).
    pub fn region(self) -> (r: TabRegion)
        ensures
            r == tab_region(self),
    {
        match self {
            DockTab::Canvas => TabRegion::Canvas,
            DockTab::LeftPanel => TabRegion::Left,
            DockTab::Inspector | DockTab::ScriptEditor => TabRegion::Right,
            DockTab::Localization => TabRegion::Bottom,
            DockTab::VoiceGeneration => TabRegion::Bottom,
            DockTab::Collaboration => TabRegion::Bottom,
            DockTab::Barks => TabRegion::Bottom,
            DockTab::Quests => TabRegion::Bottom,
            DockTab::Timeline => TabRegion::Bottom,
            DockTab::WorldDatabase => TabRegion::Bottom,
            DockTab::WritingAssistant => TabRegion::Right,
            _ => TabRegion::Bottom,
        }
    }
}

} // verus!
