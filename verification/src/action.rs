use crate::config::Config;
use crate::display::{CommandView, DisplayCommand};
use crate::key_handler::{Action, ActionView, BuiltinCommand};
use crate::layout::{resize_post, StackLayout};
use crate::tag::{has_handle, rotate_left_seq, rotate_right_seq, tag_wf, Tag};
use vstd::prelude::*;

verus! {

/// What executing an action leaves behind: closing touches nothing and asks
/// the server to kill the focused window (a no-op without focus); the move
/// commands rotate the workspace and re-tile; a custom action touches nothing
/// and asks for one detached process (none for an empty command line).
pub open spec fn execute_post(
    action: ActionView,
    pre_tag: Seq<Client>,
    post_tag: Seq<Client>,
    cmds: Seq<CommandView>,
    current: Option<u64>,
    gaps: int,
    width: int,
    height: int,
) -> bool {
    match action {
        ActionView::Builtin(BuiltinCommand::Close) => post_tag == pre_tag && (match current {
            Some(w) => cmds == seq![CommandView::Kill { window: w }],
            None => cmds.len() == 0,
        }),
        ActionView::Builtin(BuiltinCommand::MoveLeft) => resize_post(
            rotate_left_seq(pre_tag),
            post_tag,
            cmds,
            gaps,
            width,
            height,
        ),
        ActionView::Builtin(BuiltinCommand::MoveRight) => resize_post(
            rotate_right_seq(pre_tag),
            post_tag,
            cmds,
            gaps,
            width,
            height,
        ),
        ActionView::Custom(items) => post_tag == pre_tag && (if items.len() > 0 {
            cmds == seq![CommandView::Spawn { items }]
        } else {
            cmds.len() == 0
        }),
    }
}

use crate::client::Client;

impl Action {
    /// Carries the action out against the given workspace and focus, and
    /// returns the display requests it wants issued. The workspace keeps
    /// exactly the clients it had.
    pub fn execute(
        &self,
        config: &Config,
        shift_by: usize,
        current: Option<u64>,
        layout: &mut StackLayout,
        tag: &mut Tag,
        width: i32,
        height: i32,
    ) -> (cmds: Vec<DisplayCommand>)
        requires
            width >= 0,
            height >= 0,
        ensures
            execute_post(
                self@,
                old(tag)@,
                final(tag)@,
                cmds.deep_view(),
                current,
                config.gaps as int,
                width as int,
                height as int,
            ),
            final(tag)@.len() == old(tag)@.len(),
            forall|w: u64| has_handle(final(tag)@, w) == has_handle(old(tag)@, w),
            tag_wf(old(tag)@) ==> tag_wf(final(tag)@),
    {
        match self {
            Action::Builtin(builtin) => {
                match builtin {
                    BuiltinCommand::Close => {
                        // When focus is on the root there is nothing to close,
                        // and that is deliberately not an error.
                        match current {
                            Some(w) => {
                                let mut cmds: Vec<DisplayCommand> = Vec::new();
                                cmds.push(DisplayCommand::Kill { window: w });
                                proof {
                                    assert(cmds.deep_view() =~= seq![
                                        CommandView::Kill { window: w },
                                    ]);
                                }
                                cmds
                            },
                            None => Vec::new(),
                        }
                    },
                    BuiltinCommand::MoveLeft => layout.shift_left(
                        tag,
                        config,
                        shift_by,
                        width,
                        height,
                        current,
                    ),
                    BuiltinCommand::MoveRight => layout.shift_right(
                        tag,
                        config,
                        shift_by,
                        width,
                        height,
                        current,
                    ),
                }
            },
            Action::Custom(items) => {
                if items.len() > 0 {
                    let copy = clone_strings(items);
                    let mut cmds: Vec<DisplayCommand> = Vec::new();
                    cmds.push(DisplayCommand::Spawn { items: copy });
                    proof {
                        assert(copy.deep_view() =~= items.deep_view());
                        assert(cmds.deep_view() =~= seq![
                            CommandView::Spawn { items: items.deep_view() },
                        ]);
                    }
                    cmds
                } else {
                    Vec::new()
                }
            },
        }
    }
}

/// A fresh vector holding the same strings.
fn clone_strings(items: &Vec<String>) -> (r: Vec<String>)
    ensures
        r@ == items@,
{
    let mut r: Vec<String> = Vec::new();
    let mut i: usize = 0;
    while i < items.len()
        invariant
            i <= items@.len(),
            r@ == items@.take(i as int),
        decreases items@.len() - i,
    {
        r.push(items[i].clone());
        proof {
            assert(r@ =~= items@.take(i + 1));
        }
        i = i + 1;
    }
    proof {
        assert(items@.take(items@.len() as int) =~= items@);
    }
    r
}

} // verus!
