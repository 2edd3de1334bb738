//! The frame around the task list: which panel is selected, and how a panel is named.

use crate::store::TemplateApp;
use vstd::prelude::*;
use vstd::string::*;

verus! {

/// A panel that the frame can show.
#[derive(Clone, Copy, Debug, PartialEq, Eq, Structural)]
pub enum Anchor {
    TodoList,
    NewTask,
}

impl Default for Anchor {
    /// The task list is the panel shown first.
    fn default() -> (anchor: Anchor)
        ensures
            anchor == Anchor::TodoList,
    {
        Self::TodoList
    }
}

impl Anchor {
    /// The name under which the panel is addressed.
    pub open spec fn label(self) -> Seq<char> {
        match self {
            Anchor::TodoList => "TodoList"@,
            Anchor::NewTask => "NewTask"@,
        }
    }

    /// The panel that goes by the given name, if there is one.
    pub open spec fn named(name: Seq<char>) -> Option<Anchor> {
        if name == Anchor::TodoList.label() {
            Some(Anchor::TodoList)
        } else if name == Anchor::NewTask.label() {
            Some(Anchor::NewTask)
        } else {
            None
        }
    }

    /// All panels, in the order in which they are offered.
    pub fn all() -> (anchors: Vec<Anchor>)
        ensures
            anchors@ == seq![Anchor::TodoList, Anchor::NewTask],
    {
        vec![Self::TodoList, Self::NewTask]
    }

    /// The name under which the panel is addressed.
    pub fn name(&self) -> (name: String)
        ensures
            name@ == self.label(),
    {
        match self {
            Self::TodoList => "TodoList".to_owned(),
            Self::NewTask => "NewTask".to_owned(),
        }
    }

    /// Finds the panel that goes by the given name.
    pub fn from_name(name: &str) -> (anchor: Option<Anchor>)
        ensures
            anchor == Anchor::named(name@),
    {
        let wanted = name.to_owned();
        let anchors = Anchor::all();
        let mut i: usize = 0;
        while i < anchors.len()
            invariant
                i <= anchors.len(),
                wanted@ == name@,
                anchors@ == seq![Anchor::TodoList, Anchor::NewTask],
                forall|j: int| 0 <= j < i ==> (#[trigger] anchors@[j]).label() != name@,
            decreases anchors.len() - i,
        {
            let anchor = anchors[i];
            if anchor.name() == wanted {
                return Some(anchor);
            }
            i += 1;
        }
        proof {
            assert(anchors@[0].label() != name@);
            assert(anchors@[1].label() != name@);
        }
        None
    }
}

/// Every panel is found again under its own name, so no two panels share a name.
pub proof fn lemma_anchor_is_found_by_its_name(anchor: Anchor)
    ensures
        Anchor::named(anchor.label()) == Some(anchor),
{
    reveal_strlit("TodoList");
    reveal_strlit("NewTask");
    assert("TodoList"@.len() != "NewTask"@.len());
}

/// The frame's state: the task store and the panel that is selected.
#[derive(Debug)]
pub struct WrapApp {
    pub todo_list: TemplateApp,
    pub selected_anchor: Anchor,
}

impl Default for WrapApp {
    /// An empty task store, with the task list selected.
    fn default() -> (app: WrapApp)
        ensures
            app.todo_list@ == crate::model::StoreView::empty(),
            app.todo_list.wf(),
            app.selected_anchor == Anchor::TodoList,
    {
        Self { todo_list: TemplateApp::default(), selected_anchor: Anchor::default() }
    }
}

impl WrapApp {
    /// The panel that a location fragment asks for: the fragment is a `#` followed by the
    /// panel's name.
    pub open spec fn asked_for(fragment: Seq<char>) -> Option<Anchor> {
        if fragment.len() > 0 && fragment[0] == '#' {
            Anchor::named(fragment.skip(1))
        } else {
            None
        }
    }

    /// Whether a panel is to be drawn: the selected one is, and every panel is while everything
    /// is made visible.
    pub fn shows(&self, anchor: Anchor, everything_is_visible: bool) -> (shown: bool)
        ensures
            shown == (anchor == self.selected_anchor || everything_is_visible),
    {
        anchor == self.selected_anchor || everything_is_visible
    }

    /// Selects the panel that the location fragment asks for; a fragment that names no panel
    /// leaves the selection as it is.
    pub fn follow_fragment(&mut self, fragment: &str)
        ensures
            final(self).selected_anchor == (match WrapApp::asked_for(fragment@) {
                Some(anchor) => anchor,
                None => old(self).selected_anchor,
            }),
            final(self).todo_list == old(self).todo_list,
    {
        let n = fragment.unicode_len();
        if n > 0 && fragment.get_char(0) == '#' {
            let name = fragment.substring_char(1, n);
            assert(name@ =~= fragment@.skip(1));
            match Anchor::from_name(name) {
                Some(anchor) => {
                    self.selected_anchor = anchor;
                },
                None => {},
            }
        }
    }
}

} // verus!
