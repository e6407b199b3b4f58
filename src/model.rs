//! The data that commands, libraries and editor snapshots carry.
use vstd::prelude::*;

verus! {

/// What a command's manifest declares.
pub struct CommandInfo {
    pub name: String,
    pub title: String,
    pub version: u32,
    pub description: String,
    pub api: u32,
    pub entry_point: String,
}

/// A command found under a script root: its content-derived id, its folder and its manifest.
pub struct Command {
    pub id: String,
    pub location: String,
    pub info: CommandInfo,
}

impl Command {
    /// The command's own folder, the root of its sandbox.
    pub fn get_location(&self) -> (r: &str)
        ensures
            r@ == self.location@,
    {
        self.location.as_str()
    }
}

/// What a library's manifest declares.
pub struct LibraryInfo {
    pub name: String,
    pub version: u32,
    pub api: u32,
}

/// A shared library, keyed by the name in its manifest.
pub struct Library {
    pub location: String,
    pub info: LibraryInfo,
}

impl Library {
    /// The library's folder.
    pub fn get_location(&self) -> (r: &str)
        ensures
            r@ == self.location@,
    {
        self.location.as_str()
    }

    /// A copy of this library that equals it.
    pub fn duplicate(&self) -> (r: Library)
        ensures
            r == *self,
    {
        Library {
            location: self.location.clone(),
            info: LibraryInfo {
                name: self.info.name.clone(),
                version: self.info.version,
                api: self.info.api,
            },
        }
    }
}

impl CommandInfo {
    /// A copy of this manifest that equals it.
    pub fn duplicate(&self) -> (r: CommandInfo)
        ensures
            r == *self,
    {
        CommandInfo {
            name: self.name.clone(),
            title: self.title.clone(),
            version: self.version,
            description: self.description.clone(),
            api: self.api,
            entry_point: self.entry_point.clone(),
        }
    }
}

impl Command {
    /// A copy of this command that equals it.
    pub fn duplicate(&self) -> (r: Command)
        ensures
            r == *self,
    {
        Command { id: self.id.clone(), location: self.location.clone(), info: self.info.duplicate() }
    }
}

/// One selection range of the editor; `text` is the selected text where the editor sent it.
pub struct EditorSelection {
    pub anchor: usize,
    pub head: usize,
    pub text: Option<String>,
}

/// The editor's selections at the start of a run and which one is the main one.
pub struct EditorSelectionState {
    pub main_selection_index: usize,
    pub selections: Vec<EditorSelection>,
}

/// Text to put in place of the selection at `index`.
pub struct EditorSelectionReplacement {
    pub index: usize,
    pub text: String,
}

/// The point-in-time copy of the editor handed to a run.
pub struct EditorState {
    pub selection: EditorSelectionState,
}

impl EditorSelection {
    /// A copy of this selection that equals it.
    pub fn duplicate(&self) -> (r: EditorSelection)
        ensures
            r == *self,
    {
        let text = match &self.text {
            Some(t) => Some(t.clone()),
            None => None,
        };
        EditorSelection { anchor: self.anchor, head: self.head, text }
    }
}

impl EditorSelectionState {
    /// A copy of this selection state whose selections equal these, one for one.
    pub fn duplicate(&self) -> (r: EditorSelectionState)
        ensures
            r.main_selection_index == self.main_selection_index,
            r.selections@ == self.selections@,
    {
        let mut selections: Vec<EditorSelection> = Vec::new();
        let mut i: usize = 0;
        while i < self.selections.len()
            invariant
                i <= self.selections@.len(),
                selections@ == self.selections@.subrange(0, i as int),
            decreases self.selections@.len() - i,
        {
            selections.push(self.selections[i].duplicate());
            i += 1;
        }
        assert(selections@ =~= self.selections@);
        EditorSelectionState { main_selection_index: self.main_selection_index, selections }
    }
}

} // verus!
