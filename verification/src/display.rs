use vstd::prelude::*;

verus! {

/// One request for the display server, produced by the core and performed by
/// the unverified shell that owns the connection.
#[derive(Clone, Debug, PartialEq, Eq)]
pub enum DisplayCommand {
    /// Move and resize a window to the given bounds.
    MoveResize { window: u64, x: i32, y: i32, width: i32, height: i32 },
    /// Make a window visible.
    MapWindow { window: u64 },
    /// Hide a window.
    UnmapWindow { window: u64 },
    /// Give a window the input focus.
    SetFocus { window: u64 },
    /// Ask the server to terminate a window's client.
    Kill { window: u64 },
    /// Launch a detached external process: the first item is the program,
    /// the rest are its arguments.
    Spawn { items: Vec<String> },
}

/// The mathematical value of a `DisplayCommand`.
pub enum CommandView {
    MoveResize { window: u64, x: int, y: int, width: int, height: int },
    MapWindow { window: u64 },
    UnmapWindow { window: u64 },
    SetFocus { window: u64 },
    Kill { window: u64 },
    Spawn { items: Seq<Seq<char>> },
}

impl View for DisplayCommand {
    type V = CommandView;

    open spec fn view(&self) -> CommandView {
        match self {
            DisplayCommand::MoveResize { window, x, y, width, height } => {
                CommandView::MoveResize {
                    window: *window,
                    x: *x as int,
                    y: *y as int,
                    width: *width as int,
                    height: *height as int,
                }
            },
            DisplayCommand::MapWindow { window } => CommandView::MapWindow { window: *window },
            DisplayCommand::UnmapWindow { window } => CommandView::UnmapWindow { window: *window },
            DisplayCommand::SetFocus { window } => CommandView::SetFocus { window: *window },
            DisplayCommand::Kill { window } => CommandView::Kill { window: *window },
            DisplayCommand::Spawn { items } => CommandView::Spawn { items: items.deep_view() },
        }
    }
}

impl DeepView for DisplayCommand {
    type V = CommandView;

    open spec fn deep_view(&self) -> CommandView {
        self.view()
    }
}

/// Indexing a vector's deep view yields the element's deep view.
pub proof fn lemma_vec_deep_view_index<T: DeepView>(v: Vec<T>, i: int)
    requires
        0 <= i < v@.len(),
    ensures
        v.deep_view().len() == v@.len(),
        v.deep_view()[i] == v@[i].deep_view(),
{
}

/// The deep view of a concatenation is the concatenation of the deep views.
pub proof fn lemma_deep_view_append<T: DeepView>(a: Vec<T>, b: Vec<T>, c: Vec<T>)
    requires
        c@ == a@ + b@,
    ensures
        c.deep_view() == a.deep_view() + b.deep_view(),
{
    assert forall|k: int| 0 <= k < c@.len() implies #[trigger] c.deep_view()[k] == (a.deep_view()
        + b.deep_view())[k] by {
        lemma_vec_deep_view_index(c, k);
        assert(c@[k] == (a@ + b@)[k]);
        if k < a@.len() {
            lemma_vec_deep_view_index(a, k);
        } else {
            lemma_vec_deep_view_index(b, k - a@.len());
        }
    }
    assert(c.deep_view() =~= a.deep_view() + b.deep_view());
}

/// One abstract input event, handed in by the shell after it decodes the
/// display server's raw event.
#[derive(Clone, Copy, Debug, PartialEq, Eq, Structural)]
pub enum WmEvent {
    /// A window asked to be placed; only the handle matters to the core,
    /// since the layout overrides any requested geometry.
    ConfigureRequest { window: u64 },
    /// A window asked to become visible.
    MapRequest { window: u64 },
    /// A window was hidden or destroyed.
    UnmapNotify { window: u64 },
    /// A grabbed key was pressed: the key's symbol and the modifier bits held.
    KeyPress { keysym: u64, state: u32 },
    /// The pointer entered a window (never the root window).
    EnterNotify { window: u64 },
    /// Any event kind the manager ignores.
    Other,
}

} // verus!
