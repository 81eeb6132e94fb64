use crate::action::execute_post;
use crate::client::Client;
use crate::config::Config;
use crate::display::{CommandView, DisplayCommand, WmEvent};
use crate::key_handler::{lookup_action, ActionView, BuiltinCommand};
use crate::layout::{can_tile, resize_post, tiled_clients, tiled_commands, StackLayout};
use crate::tag::{
    has_handle, lemma_rotate_left_properties, lemma_rotate_right_properties, lemma_same_windows,
    lemma_tag_add_has, lemma_tag_remove_has, rotate_left_seq, rotate_right_seq, tag_add,
    tag_remove, tag_wf, Tag,
};
use vstd::prelude::*;

verus! {

/// The fixed number of workspaces; they exist for the manager's lifetime.
pub const MAX_WORKSPACES: usize = 10;

/// The runtime state machine: the workspaces, the active layout, the
/// configuration, and the focus. Every event handler consumes one decoded
/// event, mutates this state, and returns the display requests to issue.
pub struct WindowManager {
    /// All the workspaces with their respective clients.
    pub tags: Vec<Tag>,
    /// The currently visible workspace, an index below `MAX_WORKSPACES`.
    pub current_workspace: usize,
    /// The configuration the manager was started with.
    pub config: Config,
    /// The active layout strategy.
    pub current_layout: StackLayout,
    /// The focused window: `Some` names a managed window, `None` means the
    /// root window has the focus.
    pub current_window: Option<u64>,
    /// The root window's handle; it can never be focused as a client.
    pub root: u64,
    /// The screen size, fixed at startup.
    pub screen_width: i32,
    pub screen_height: i32,
}

impl WindowManager {
    /// The structural invariant every handler preserves: the workspace pool
    /// is complete, the visible index is in range, no workspace repeats a
    /// handle, and the screen has nonnegative size.
    pub open spec fn wf(self) -> bool {
        &&& self.tags@.len() == MAX_WORKSPACES
        &&& self.current_workspace < MAX_WORKSPACES
        &&& (forall|t: int| 0 <= t < self.tags@.len() ==> tag_wf(#[trigger] self.tags@[t]@))
        &&& self.screen_width >= 0
        &&& self.screen_height >= 0
    }

    /// No handle is held by two different workspaces.
    pub open spec fn tags_exclusive(self) -> bool {
        forall|t1: int, t2: int, w: u64|
            0 <= t1 < self.tags@.len() && 0 <= t2 < self.tags@.len() && t1 != t2 && #[trigger] has_handle(
                self.tags@[t1]@,
                w,
            ) ==> !#[trigger] has_handle(self.tags@[t2]@, w)
    }

    /// The clients of the visible workspace.
    pub open spec fn cur_seq(self) -> Seq<Client> {
        self.tags@[self.current_workspace as int]@
    }

    /// The configured gap width, as an integer.
    pub open spec fn gaps(self) -> int {
        self.config.gaps as int
    }

    /// A fresh manager: every workspace empty, workspace 0 visible, focus on
    /// the root window.
    pub fn new(config: Config, root: u64, screen_width: i32, screen_height: i32) -> (wm:
        WindowManager)
        requires
            screen_width >= 0,
            screen_height >= 0,
        ensures
            wm.wf(),
            wm.tags_exclusive(),
            wm.current_workspace == 0,
            wm.current_window is None,
            forall|t: int|
                0 <= t < wm.tags@.len() ==> (#[trigger] wm.tags@[t]@) == Seq::<Client>::empty(),
            wm.config == config,
            wm.root == root,
            wm.screen_width == screen_width,
            wm.screen_height == screen_height,
    {
        let mut tags: Vec<Tag> = Vec::new();
        let mut i: usize = 0;
        while i < MAX_WORKSPACES
            invariant
                i <= MAX_WORKSPACES,
                tags@.len() == i,
                forall|t: int| 0 <= t < i ==> (#[trigger] tags@[t]@) == Seq::<Client>::empty(),
            decreases MAX_WORKSPACES - i,
        {
            tags.push(Tag::new());
            i = i + 1;
        }
        let wm = WindowManager {
            tags,
            current_workspace: 0,
            config,
            current_layout: StackLayout::new(),
            current_window: None,
            root,
            screen_width,
            screen_height,
        };
        proof {
            assert forall|t: int| 0 <= t < wm.tags@.len() implies tag_wf(#[trigger] wm.tags@[t]@) by {
                assert(wm.tags@[t]@ == Seq::<Client>::empty());
            }
        }
        wm
    }

    /// Focuses the given window and records it as current, unless it is the
    /// root window, which never takes focus this way.
    pub fn set_and_focus_current(&mut self, window: u64) -> (cmds: Vec<DisplayCommand>)
        ensures
            final(self).tags == old(self).tags,
            final(self).current_workspace == old(self).current_workspace,
            final(self).config == old(self).config,
            final(self).current_layout == old(self).current_layout,
            final(self).root == old(self).root,
            final(self).screen_width == old(self).screen_width,
            final(self).screen_height == old(self).screen_height,
            window != old(self).root ==> final(self).current_window == Some(window)
                && cmds.deep_view() == seq![CommandView::SetFocus { window }],
            window == old(self).root ==> final(self).current_window == old(self).current_window
                && cmds@.len() == 0,
    {
        let mut cmds: Vec<DisplayCommand> = Vec::new();
        if window != self.root {
            cmds.push(DisplayCommand::SetFocus { window });
            self.current_window = Some(window);
            proof {
                assert(cmds.deep_view() =~= seq![CommandView::SetFocus { window }]);
            }
        }
        cmds
    }
}

/// The fields no event handler ever changes.
pub open spec fn same_frame(pre: WindowManager, post: WindowManager) -> bool {
    &&& post.current_workspace == pre.current_workspace
    &&& post.config == pre.config
    &&& post.current_layout == pre.current_layout
    &&& post.root == pre.root
    &&& post.screen_width == pre.screen_width
    &&& post.screen_height == pre.screen_height
    &&& post.tags@.len() == pre.tags@.len()
}

/// The background workspaces are left alone.
pub open spec fn other_tags_same(pre: WindowManager, post: WindowManager) -> bool {
    forall|t: int|
        0 <= t < pre.tags@.len() && t != pre.current_workspace as int ==> post.tags@[t]
            == pre.tags@[t]
}

/// The handler changed nothing at all.
pub open spec fn unchanged_state(pre: WindowManager, post: WindowManager) -> bool {
    &&& same_frame(pre, post)
    &&& post.tags == pre.tags
    &&& post.current_window == pre.current_window
}

/// A configure request for `window`: the handle joins the visible workspace
/// unless it is already there (placement requests for known handles are
/// overridden by the layout), and the workspace is re-tiled. Focus does not
/// move.
pub open spec fn configure_post(
    pre: WindowManager,
    post: WindowManager,
    window: u64,
    cmds: Seq<CommandView>,
) -> bool {
    &&& same_frame(pre, post)
    &&& other_tags_same(pre, post)
    &&& post.current_window == pre.current_window
    &&& resize_post(
        tag_add(pre.cur_seq(), Client { window, x: 0, y: 0, width: 0, height: 0 }),
        post.cur_seq(),
        cmds,
        pre.gaps(),
        pre.screen_width as int,
        pre.screen_height as int,
    )
}

/// A map request for `window`: only a member of the visible workspace is
/// mapped, and it is focused exactly when the map happens (and the handle is
/// not the root window's).
pub open spec fn map_post(
    pre: WindowManager,
    post: WindowManager,
    window: u64,
    cmds: Seq<CommandView>,
) -> bool {
    &&& same_frame(pre, post)
    &&& post.tags == pre.tags
    &&& (if has_handle(pre.cur_seq(), window) {
        if window != pre.root {
            &&& post.current_window == Some(window)
            &&& cmds == seq![
                CommandView::MapWindow { window },
                CommandView::SetFocus { window },
                CommandView::SetFocus { window },
            ]
        } else {
            &&& post.current_window == pre.current_window
            &&& cmds == seq![CommandView::MapWindow { window }, CommandView::SetFocus { window }]
        }
    } else {
        post.current_window == pre.current_window && cmds.len() == 0
    })
}

/// An unmap notification for `window`: the handle leaves every workspace
/// (defensively, not just the visible one), the visible workspace is
/// re-tiled, and the focus falls to its master, or to the root window when it
/// is now empty.
pub open spec fn unmap_post(
    pre: WindowManager,
    post: WindowManager,
    window: u64,
    cmds: Seq<CommandView>,
) -> bool {
    let removed = tag_remove(pre.cur_seq(), window);
    let g = pre.gaps();
    let w = pre.screen_width as int;
    let h = pre.screen_height as int;
    let tiles = can_tile(g, w, h, removed.len() as int);
    let base = if tiles {
        tiled_commands(removed, g, w, h)
    } else {
        Seq::<CommandView>::empty()
    };
    let new_cur = if tiles {
        tiled_clients(removed, g, w, h)
    } else {
        removed
    };
    &&& same_frame(pre, post)
    &&& (forall|t: int|
        0 <= t < pre.tags@.len() && t != pre.current_workspace as int ==> (
        #[trigger] post.tags@[t]@) == tag_remove(pre.tags@[t]@, window))
    &&& post.cur_seq() == new_cur
    &&& (forall|t: int| 0 <= t < post.tags@.len() ==> !has_handle(#[trigger] post.tags@[t]@, window))
    &&& (if new_cur.len() > 0 {
        let master = new_cur.last();
        if master.window != pre.root {
            &&& post.current_window == Some(master.window)
            &&& cmds == base.push(CommandView::SetFocus { window: master.window })
        } else {
            &&& post.current_window == pre.current_window
            &&& cmds == base
        }
    } else {
        &&& post.current_window is None
        &&& cmds == base
    })
}

/// A key press: the matching binding's action runs against the visible
/// workspace and the current focus; without a match nothing happens.
pub open spec fn key_post(
    pre: WindowManager,
    post: WindowManager,
    keysym: u64,
    state: u32,
    cmds: Seq<CommandView>,
) -> bool {
    match lookup_action(pre.config.key_bindings@, keysym, state & 73) {
        Some(action) => {
            &&& same_frame(pre, post)
            &&& other_tags_same(pre, post)
            &&& post.current_window == pre.current_window
            &&& execute_post(
                action,
                pre.cur_seq(),
                post.cur_seq(),
                cmds,
                pre.current_window,
                pre.gaps(),
                pre.screen_width as int,
                pre.screen_height as int,
            )
        },
        None => unchanged_state(pre, post) && cmds.len() == 0,
    }
}

/// An enter notification: the entered window takes the focus unconditionally
/// (the display server never reports the root window here).
pub open spec fn enter_post(
    pre: WindowManager,
    post: WindowManager,
    window: u64,
    cmds: Seq<CommandView>,
) -> bool {
    &&& same_frame(pre, post)
    &&& post.tags == pre.tags
    &&& post.current_window == Some(window)
    &&& cmds.len() == 0
}

/// The full transition relation of the event loop: what one event does to
/// the manager and which display requests it produces.
pub open spec fn step_post(
    pre: WindowManager,
    post: WindowManager,
    event: WmEvent,
    cmds: Seq<CommandView>,
) -> bool {
    match event {
        WmEvent::ConfigureRequest { window } => configure_post(pre, post, window, cmds),
        WmEvent::MapRequest { window } => map_post(pre, post, window, cmds),
        WmEvent::UnmapNotify { window } => unmap_post(pre, post, window, cmds),
        WmEvent::KeyPress { keysym, state } => key_post(pre, post, keysym, state, cmds),
        WmEvent::EnterNotify { window } => enter_post(pre, post, window, cmds),
        WmEvent::Other => unchanged_state(pre, post) && cmds.len() == 0,
    }
}

/// Cross-tag exclusivity is an invariant of the event loop: no handle is ever
/// held by two workspaces, provided a configure request never names a window
/// that a background workspace already holds (the display server addresses
/// configure requests at the visible workspace).
pub proof fn lemma_step_preserves_exclusive(
    pre: WindowManager,
    post: WindowManager,
    event: WmEvent,
    cmds: Seq<CommandView>,
)
    requires
        pre.wf(),
        pre.tags_exclusive(),
        step_post(pre, post, event, cmds),
        event matches WmEvent::ConfigureRequest { window } ==> forall|t: int|
            0 <= t < pre.tags@.len() && t != pre.current_workspace as int ==> !has_handle(
                #[trigger] pre.tags@[t]@,
                window,
            ),
    ensures
        post.tags_exclusive(),
{
    let cw = pre.current_workspace as int;
    match event {
        WmEvent::ConfigureRequest { window } => {
            let c = Client { window, x: 0, y: 0, width: 0, height: 0 };
            let added = tag_add(pre.cur_seq(), c);
            lemma_same_windows(added, post.cur_seq());
            assert forall|t1: int, t2: int, w: u64|
                0 <= t1 < post.tags@.len() && 0 <= t2 < post.tags@.len() && t1 != t2 && has_handle(
                    post.tags@[t1]@,
                    w,
                ) implies !has_handle(post.tags@[t2]@, w) by {
                lemma_tag_add_has(pre.cur_seq(), c, w);
                if t1 != cw {
                    assert(post.tags@[t1] == pre.tags@[t1]);
                }
                if t2 != cw {
                    assert(post.tags@[t2] == pre.tags@[t2]);
                }
                if has_handle(post.tags@[t2]@, w) {
                    if t1 == cw {
                        assert(has_handle(pre.cur_seq(), w) || w == window);
                    }
                    if t2 == cw {
                        assert(has_handle(pre.cur_seq(), w) || w == window);
                    }
                }
            }
        },
        WmEvent::MapRequest { window } => {
        },
        WmEvent::UnmapNotify { window } => {
            let removed = tag_remove(pre.cur_seq(), window);
            assert forall|t1: int, t2: int, w: u64|
                0 <= t1 < post.tags@.len() && 0 <= t2 < post.tags@.len() && t1 != t2 && has_handle(
                    post.tags@[t1]@,
                    w,
                ) implies !has_handle(post.tags@[t2]@, w) by {
                lemma_tag_remove_has(pre.cur_seq(), window, w);
                lemma_tag_remove_has(pre.tags@[t1]@, window, w);
                lemma_tag_remove_has(pre.tags@[t2]@, window, w);
                if can_tile(
                    pre.gaps(),
                    pre.screen_width as int,
                    pre.screen_height as int,
                    removed.len() as int,
                ) {
                    lemma_same_windows(
                        removed,
                        tiled_clients(
                            removed,
                            pre.gaps(),
                            pre.screen_width as int,
                            pre.screen_height as int,
                        ),
                    );
                }
            }
        },
        WmEvent::KeyPress { keysym, state } => {
            match lookup_action(pre.config.key_bindings@, keysym, state & 73) {
                Some(action) => {
                    assert forall|t1: int, t2: int, w: u64|
                        0 <= t1 < post.tags@.len() && 0 <= t2 < post.tags@.len() && t1 != t2
                            && has_handle(post.tags@[t1]@, w) implies !has_handle(
                        post.tags@[t2]@,
                        w,
                    ) by {
                        match action {
                            ActionView::Builtin(BuiltinCommand::MoveLeft) => {
                                lemma_rotate_left_properties(pre.cur_seq());
                                lemma_same_windows(rotate_left_seq(pre.cur_seq()), post.cur_seq());
                            },
                            ActionView::Builtin(BuiltinCommand::MoveRight) => {
                                lemma_rotate_right_properties(pre.cur_seq());
                                lemma_same_windows(rotate_right_seq(pre.cur_seq()), post.cur_seq());
                            },
                            _ => {
                            },
                        }
                        assert(has_handle(post.cur_seq(), w) == has_handle(pre.cur_seq(), w));
                        if t1 != cw {
                            assert(post.tags@[t1] == pre.tags@[t1]);
                        }
                        if t2 != cw {
                            assert(post.tags@[t2] == pre.tags@[t2]);
                        }
                        assert(has_handle(post.tags@[t1]@, w) == has_handle(pre.tags@[t1]@, w));
                        assert(has_handle(post.tags@[t2]@, w) == has_handle(pre.tags@[t2]@, w));
                    }
                },
                None => {
                },
            }
        },
        WmEvent::EnterNotify { window } => {
        },
        WmEvent::Other => {
        },
    }
}

/// Some workspace holds the handle.
pub open spec fn handle_tracked(wm: WindowManager, w: u64) -> bool {
    exists|t: int| 0 <= t < wm.tags@.len() && #[trigger] has_handle(wm.tags@[t]@, w)
}

/// The focus names a managed window: it is `None` (the root window holds the
/// focus) or it carries a handle that some workspace holds.
pub open spec fn focus_tracked(wm: WindowManager) -> bool {
    match wm.current_window {
        Some(w) => handle_tracked(wm, w),
        None => true,
    }
}

/// Focus membership is an invariant of the event loop: the focused handle is
/// always held by some workspace, provided an enter notification names a
/// tracked window (the display server reports crossings only for managed
/// windows, never the root) and the root handle is never tracked as a client.
pub proof fn lemma_step_preserves_focus_tracked(
    pre: WindowManager,
    post: WindowManager,
    event: WmEvent,
    cmds: Seq<CommandView>,
)
    requires
        pre.wf(),
        focus_tracked(pre),
        step_post(pre, post, event, cmds),
        event matches WmEvent::EnterNotify { window } ==> handle_tracked(pre, window),
        forall|t: int| 0 <= t < pre.tags@.len() ==> !has_handle(#[trigger] pre.tags@[t]@, pre.root),
    ensures
        focus_tracked(post),
{
    let cw = pre.current_workspace as int;
    match event {
        WmEvent::ConfigureRequest { window } => {
            match pre.current_window {
                Some(w) => {
                    let t = choose|t: int|
                        0 <= t < pre.tags@.len() && has_handle(pre.tags@[t]@, w);
                    let c = Client { window, x: 0, y: 0, width: 0, height: 0 };
                    let added = tag_add(pre.cur_seq(), c);
                    lemma_same_windows(added, post.cur_seq());
                    lemma_tag_add_has(pre.cur_seq(), c, w);
                    if t == cw {
                        assert(has_handle(post.tags@[cw]@, w));
                    } else {
                        assert(post.tags@[t] == pre.tags@[t]);
                        assert(has_handle(post.tags@[t]@, w));
                    }
                    assert(focus_tracked(post));
                },
                None => {
                },
            }
        },
        WmEvent::MapRequest { window } => {
            if has_handle(pre.cur_seq(), window) && window != pre.root {
                assert(has_handle(post.tags@[cw]@, window));
                assert(post.current_window == Some(window));
                assert(handle_tracked(post, window));
            } else {
                match pre.current_window {
                    Some(w) => {
                        let t = choose|t: int|
                            0 <= t < pre.tags@.len() && has_handle(pre.tags@[t]@, w);
                        assert(has_handle(post.tags@[t]@, w));
                        assert(focus_tracked(post));
                    },
                    None => {
                    },
                }
            }
        },
        WmEvent::UnmapNotify { window } => {
            let removed = tag_remove(pre.cur_seq(), window);
            let g = pre.gaps();
            let sw = pre.screen_width as int;
            let sh = pre.screen_height as int;
            let tiles = can_tile(g, sw, sh, removed.len() as int);
            let new_cur = if tiles {
                tiled_clients(removed, g, sw, sh)
            } else {
                removed
            };
            if new_cur.len() > 0 {
                let master = new_cur.last();
                assert(new_cur[new_cur.len() - 1].window == master.window);
                assert(has_handle(new_cur, master.window));
                if tiles {
                    lemma_same_windows(removed, new_cur);
                }
                assert(has_handle(removed, master.window));
                lemma_tag_remove_has(pre.cur_seq(), window, master.window);
                assert(has_handle(pre.tags@[cw]@, master.window));
                // The root handle is never tracked, so the master cannot be
                // the root and the handler recorded it as focused.
                assert(master.window != pre.root);
                assert(has_handle(post.tags@[cw]@, master.window));
                assert(post.current_window == Some(master.window));
                assert(handle_tracked(post, master.window));
            }
        },
        WmEvent::KeyPress { keysym, state } => {
            match lookup_action(pre.config.key_bindings@, keysym, state & 73) {
                Some(action) => {
                    match pre.current_window {
                        Some(w) => {
                            let t = choose|t: int|
                                0 <= t < pre.tags@.len() && has_handle(pre.tags@[t]@, w);
                            match action {
                                ActionView::Builtin(BuiltinCommand::MoveLeft) => {
                                    lemma_rotate_left_properties(pre.cur_seq());
                                    lemma_same_windows(
                                        rotate_left_seq(pre.cur_seq()),
                                        post.cur_seq(),
                                    );
                                },
                                ActionView::Builtin(BuiltinCommand::MoveRight) => {
                                    lemma_rotate_right_properties(pre.cur_seq());
                                    lemma_same_windows(
                                        rotate_right_seq(pre.cur_seq()),
                                        post.cur_seq(),
                                    );
                                },
                                _ => {
                                },
                            }
                            assert(has_handle(post.cur_seq(), w) == has_handle(pre.cur_seq(), w));
                            if t != cw {
                                assert(post.tags@[t] == pre.tags@[t]);
                            }
                            assert(has_handle(post.tags@[t]@, w));
                            assert(focus_tracked(post));
                        },
                        None => {
                        },
                    }
                },
                None => {
                },
            }
        },
        WmEvent::EnterNotify { window } => {
            let t = choose|t: int| 0 <= t < pre.tags@.len() && has_handle(pre.tags@[t]@, window);
            assert(has_handle(post.tags@[t]@, window));
            assert(handle_tracked(post, window));
        },
        WmEvent::Other => {
        },
    }
}

/// Removing the last client of the visible workspace clears the focus, and a
/// Close key press that follows does nothing: it issues no request and leaves
/// the manager exactly as it was.
pub proof fn lemma_close_after_unmap_to_empty(
    pre: WindowManager,
    mid: WindowManager,
    post: WindowManager,
    window: u64,
    keysym: u64,
    state: u32,
    unmap_cmds: Seq<CommandView>,
    key_cmds: Seq<CommandView>,
)
    requires
        step_post(pre, mid, WmEvent::UnmapNotify { window }, unmap_cmds),
        mid.cur_seq().len() == 0,
        lookup_action(mid.config.key_bindings@, keysym, state & 73) == Some(
            ActionView::Builtin(BuiltinCommand::Close),
        ),
        step_post(mid, post, WmEvent::KeyPress { keysym, state }, key_cmds),
    ensures
        mid.current_window is None,
        key_cmds.len() == 0,
        post.tags@.len() == mid.tags@.len(),
        forall|t: int| 0 <= t < mid.tags@.len() ==> (#[trigger] post.tags@[t]@) == mid.tags@[t]@,
        post.current_window is None,
{
    assert forall|t: int| 0 <= t < mid.tags@.len() implies (#[trigger] post.tags@[t]@)
        == mid.tags@[t]@ by {
        if t != mid.current_workspace as int {
            assert(post.tags@[t] == mid.tags@[t]);
        }
    }
}

/// Handling the same configure request twice in a row changes nothing the
/// second time: the visible workspace keeps exactly one client with the
/// handle, in the same geometry, and the same requests are issued again.
pub proof fn lemma_configure_idempotent(
    pre: WindowManager,
    mid: WindowManager,
    post: WindowManager,
    window: u64,
    cmds1: Seq<CommandView>,
    cmds2: Seq<CommandView>,
)
    requires
        pre.wf(),
        step_post(pre, mid, WmEvent::ConfigureRequest { window }, cmds1),
        step_post(mid, post, WmEvent::ConfigureRequest { window }, cmds2),
    ensures
        post.cur_seq() == mid.cur_seq(),
        crate::tag::count_handle(mid.cur_seq(), window) == 1,
        cmds2 == cmds1,
{
    let c = Client { window, x: 0, y: 0, width: 0, height: 0 };
    let added = tag_add(pre.cur_seq(), c);
    let g = pre.gaps();
    let w = pre.screen_width as int;
    let h = pre.screen_height as int;
    lemma_tag_add_has(pre.cur_seq(), c, window);
    lemma_same_windows(added, mid.cur_seq());
    assert(has_handle(mid.cur_seq(), window));
    assert(tag_add(mid.cur_seq(), c) == mid.cur_seq());
    if can_tile(g, w, h, added.len() as int) {
        assert(tiled_clients(mid.cur_seq(), g, w, h) =~= mid.cur_seq()) by {
            assert(mid.cur_seq() == tiled_clients(added, g, w, h));
            assert forall|i: int| 0 <= i < mid.cur_seq().len() implies tiled_clients(
                mid.cur_seq(),
                g,
                w,
                h,
            )[i] == mid.cur_seq()[i] by {
                assert(mid.cur_seq()[i] == tiled_clients(added, g, w, h)[i]);
            }
        }
        assert(tiled_commands(mid.cur_seq(), g, w, h) =~= tiled_commands(added, g, w, h)) by {
            assert forall|k: int| 0 <= k < mid.cur_seq().len() implies tiled_commands(
                mid.cur_seq(),
                g,
                w,
                h,
            )[k] == tiled_commands(added, g, w, h)[k] by {
                let n = mid.cur_seq().len() as int;
                assert(tiled_clients(mid.cur_seq(), g, w, h)[n - 1 - k] == tiled_clients(
                    added,
                    g,
                    w,
                    h,
                )[n - 1 - k]);
            }
        }
    }
    // The counting part: the well-formed workspace holds the handle once.
    crate::tag::lemma_add_idempotent(pre.cur_seq(), c);
    lemma_count_same_windows(added, mid.cur_seq(), window);
}

/// Two client sequences with the same handles position by position count
/// every handle alike.
proof fn lemma_count_same_windows(s1: Seq<Client>, s2: Seq<Client>, window: u64)
    requires
        s1.len() == s2.len(),
        forall|i: int| 0 <= i < s1.len() ==> s1[i].window == s2[i].window,
    ensures
        crate::tag::count_handle(s1, window) == crate::tag::count_handle(s2, window),
    decreases s1.len(),
{
    if s1.len() > 0 {
        assert forall|i: int| 0 <= i < s1.drop_first().len() implies s1.drop_first()[i].window
            == s2.drop_first()[i].window by {
            assert(s1[i + 1].window == s2[i + 1].window);
        }
        lemma_count_same_windows(s1.drop_first(), s2.drop_first(), window);
    }
}

impl WindowManager {
    /// Handles a configure request: tracks the handle in the visible
    /// workspace if it is new, then re-tiles. Requested geometry is ignored;
    /// the layout is authoritative.
    pub fn handle_configure_request(&mut self, window: u64) -> (cmds: Vec<DisplayCommand>)
        requires
            old(self).wf(),
        ensures
            final(self).wf(),
            configure_post(*old(self), *final(self), window, cmds.deep_view()),
    {
        let cw = self.current_workspace;
        let tag = &mut self.tags[cw];
        tag.add_new_window_if_not_exists(Client::new(window));
        let cmds = self.current_layout.resize(tag, &self.config, self.screen_width,
            self.screen_height);
        proof {
            assert(self.tags@[cw as int]@ == self.cur_seq());
            assert forall|t: int| 0 <= t < self.tags@.len() implies tag_wf(
                #[trigger] self.tags@[t]@,
            ) by {
                if t != cw as int {
                    assert(self.tags@[t] == old(self).tags@[t]);
                }
            }
        }
        cmds
    }

    /// Handles a map request: a member of the visible workspace is made
    /// visible and focused; an unknown handle is ignored.
    pub fn handle_map_request(&mut self, window: u64) -> (cmds: Vec<DisplayCommand>)
        requires
            old(self).wf(),
        ensures
            final(self).wf(),
            map_post(*old(self), *final(self), window, cmds.deep_view()),
    {
        let cw = self.current_workspace;
        let contained = self.tags[cw].window_contained(window);
        let mut cmds = self.tags[cw].map_window(window);
        if contained {
            let mut focus_cmds = self.set_and_focus_current(window);
            let ghost base_vec = cmds;
            let ghost extra_vec = focus_cmds;
            cmds.append(&mut focus_cmds);
            proof {
                crate::display::lemma_deep_view_append(base_vec, extra_vec, cmds);
                if window != old(self).root {
                    assert(cmds.deep_view() =~= seq![
                        CommandView::MapWindow { window },
                        CommandView::SetFocus { window },
                        CommandView::SetFocus { window },
                    ]);
                } else {
                    assert(cmds.deep_view() =~= seq![
                        CommandView::MapWindow { window },
                        CommandView::SetFocus { window },
                    ]);
                }
            }
        }
        cmds
    }

    /// Handles an unmap notification: scrubs the handle from every workspace,
    /// re-tiles the visible one, and focuses its master, or clears the focus
    /// when the workspace emptied.
    pub fn handle_unmap_notify(&mut self, window: u64) -> (cmds: Vec<DisplayCommand>)
        requires
            old(self).wf(),
        ensures
            final(self).wf(),
            unmap_post(*old(self), *final(self), window, cmds.deep_view()),
    {
        let cw = self.current_workspace;
        let mut i: usize = 0;
        while i < MAX_WORKSPACES
            invariant
                i <= MAX_WORKSPACES,
                old(self).wf(),
                self.tags@.len() == MAX_WORKSPACES,
                self.current_workspace == old(self).current_workspace,
                self.config == old(self).config,
                self.current_layout == old(self).current_layout,
                self.current_window == old(self).current_window,
                self.root == old(self).root,
                self.screen_width == old(self).screen_width,
                self.screen_height == old(self).screen_height,
                cw == old(self).current_workspace,
                forall|t: int|
                    0 <= t < i ==> (#[trigger] self.tags@[t]@) == tag_remove(
                        old(self).tags@[t]@,
                        window,
                    ),
                forall|t: int|
                    i <= t < MAX_WORKSPACES ==> (#[trigger] self.tags@[t]) == old(self).tags@[t],
                forall|t: int| 0 <= t < MAX_WORKSPACES ==> tag_wf(#[trigger] self.tags@[t]@),
            decreases MAX_WORKSPACES - i,
        {
            let tag = &mut self.tags[i];
            tag.remove_window(window);
            i = i + 1;
        }
        let ghost removed = tag_remove(old(self).cur_seq(), window);
        let tag = &mut self.tags[cw];
        let mut cmds = self.current_layout.resize(tag, &self.config, self.screen_width,
            self.screen_height);
        proof {
            assert(self.tags@[cw as int]@ == self.cur_seq());
            if cmds@.len() == 0 {
                assert(cmds.deep_view() =~= Seq::<CommandView>::empty());
            }
        }
        let ghost base_dv = cmds.deep_view();
        let wins = self.tags[cw].get_windows();
        let len = wins.len();
        if len > 0 {
            let master = wins[len - 1];
            let mut focus_cmds = self.set_and_focus_current(master.window);
            let ghost base_vec = cmds;
            let ghost extra_vec = focus_cmds;
            cmds.append(&mut focus_cmds);
            proof {
                crate::display::lemma_deep_view_append(base_vec, extra_vec, cmds);
                if master.window != old(self).root {
                    assert(cmds.deep_view() =~= base_dv.push(
                        CommandView::SetFocus { window: master.window },
                    ));
                } else {
                    assert(cmds.deep_view() =~= base_dv);
                }
            }
        } else {
            self.current_window = None;
        }
        proof {
            assert forall|t: int| 0 <= t < self.tags@.len() implies !has_handle(
                #[trigger] self.tags@[t]@,
                window,
            ) by {
                if t == cw as int {
                    lemma_tag_remove_has(old(self).cur_seq(), window, window);
                    lemma_same_windows(removed, self.cur_seq());
                } else {
                    lemma_tag_remove_has(old(self).tags@[t]@, window, window);
                }
            }
        }
        cmds
    }

    /// Handles a key press: looks the observed key symbol and modifier set up
    /// in the binding table (set equality on modifiers, last registered wins)
    /// and executes the matched action.
    pub fn handle_key_press(&mut self, keysym: u64, state: u32) -> (cmds: Vec<DisplayCommand>)
        requires
            old(self).wf(),
        ensures
            final(self).wf(),
            key_post(*old(self), *final(self), keysym, state, cmds.deep_view()),
    {
        let mods = crate::key_handler::Modifier::from_event(state);
        let mask = crate::key_handler::fold_mask(&mods);
        proof {
            crate::key_handler::lemma_state_modifiers_mask(state);
        }
        match self.config.find_binding(keysym, mask) {
            Some(i) => {
                let cw = self.current_workspace;
                let binding = &self.config.key_bindings[i];
                let cmds = binding.action.execute(
                    &self.config,
                    self.config.shift_by,
                    self.current_window,
                    &mut self.current_layout,
                    &mut self.tags[cw],
                    self.screen_width,
                    self.screen_height,
                );
                proof {
                    assert(self.tags@[cw as int]@ == self.cur_seq());
                    assert forall|t: int| 0 <= t < self.tags@.len() implies tag_wf(
                        #[trigger] self.tags@[t]@,
                    ) by {
                        if t != cw as int {
                            assert(self.tags@[t] == old(self).tags@[t]);
                        }
                    }
                }
                cmds
            },
            None => Vec::new(),
        }
    }

    /// Handles an enter notification: the entered window takes the focus.
    pub fn handle_enter_notify(&mut self, window: u64) -> (cmds: Vec<DisplayCommand>)
        requires
            old(self).wf(),
        ensures
            final(self).wf(),
            enter_post(*old(self), *final(self), window, cmds.deep_view()),
    {
        self.current_window = Some(window);
        Vec::new()
    }

    /// One turn of the event loop: dispatches a decoded event to its handler
    /// and returns the display requests to issue. Unknown events are ignored.
    pub fn handle_event(&mut self, event: WmEvent) -> (cmds: Vec<DisplayCommand>)
        requires
            old(self).wf(),
        ensures
            final(self).wf(),
            step_post(*old(self), *final(self), event, cmds.deep_view()),
    {
        match event {
            WmEvent::ConfigureRequest { window } => self.handle_configure_request(window),
            WmEvent::MapRequest { window } => self.handle_map_request(window),
            WmEvent::UnmapNotify { window } => self.handle_unmap_notify(window),
            WmEvent::KeyPress { keysym, state } => self.handle_key_press(keysym, state),
            WmEvent::EnterNotify { window } => self.handle_enter_notify(window),
            WmEvent::Other => Vec::new(),
        }
    }
}

} // verus!
