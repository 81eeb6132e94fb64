use crate::key_handler::{
    lookup_action, mask_of, Action, ActionView, BuiltinCommand, Key, KeyBinding, Modifier,
};
use vstd::prelude::*;
use vstd::string::StringExecFns;

verus! {

/// The manager's configuration: pixel gaps, the shift distance for the move
/// commands, and the registered key bindings. Later entries of
/// `key_bindings` win over earlier ones when both match an event.
pub struct Config {
    /// The gaps in px.
    pub gaps: usize,
    /// By how much windows are shifted.
    pub shift_by: usize,
    pub key_bindings: Vec<KeyBinding>,
}

impl Config {
    /// The default configuration: 8 px gaps, shift by 10, and four bindings:
    /// Alt+Shift+q closes the focused window, Super+h and Super+l move it,
    /// and Alt+Shift+f launches an external file manager.
    pub fn new() -> (c: Config)
        ensures
            c.gaps == 8,
            c.shift_by == 10,
            c.key_bindings@.len() == 4,
            c.key_bindings@[0].modifiers@ == seq![Modifier::Alt, Modifier::Shift],
            c.key_bindings@[0].key == Key::Q,
            c.key_bindings@[0].action@ == ActionView::Builtin(BuiltinCommand::Close),
            c.key_bindings@[1].modifiers@ == seq![Modifier::Super],
            c.key_bindings@[1].key == Key::H,
            c.key_bindings@[1].action@ == ActionView::Builtin(BuiltinCommand::MoveLeft),
            c.key_bindings@[2].modifiers@ == seq![Modifier::Super],
            c.key_bindings@[2].key == Key::L,
            c.key_bindings@[2].action@ == ActionView::Builtin(BuiltinCommand::MoveRight),
            c.key_bindings@[3].modifiers@ == seq![Modifier::Alt, Modifier::Shift],
            c.key_bindings@[3].key == Key::F,
            c.key_bindings@[3].action@ == ActionView::Custom(seq![("dolphin")@]),
    {
        let mut key_bindings: Vec<KeyBinding> = Vec::new();

        let mut close_mods: Vec<Modifier> = Vec::new();
        close_mods.push(Modifier::Alt);
        close_mods.push(Modifier::Shift);
        proof {
            assert(close_mods@ =~= seq![Modifier::Alt, Modifier::Shift]);
        }
        key_bindings.push(
            KeyBinding {
                modifiers: close_mods,
                key: Key::Q,
                action: Action::Builtin(BuiltinCommand::Close),
            },
        );

        let mut left_mods: Vec<Modifier> = Vec::new();
        left_mods.push(Modifier::Super);
        proof {
            assert(left_mods@ =~= seq![Modifier::Super]);
        }
        key_bindings.push(
            KeyBinding {
                modifiers: left_mods,
                key: Key::H,
                action: Action::Builtin(BuiltinCommand::MoveLeft),
            },
        );

        let mut right_mods: Vec<Modifier> = Vec::new();
        right_mods.push(Modifier::Super);
        proof {
            assert(right_mods@ =~= seq![Modifier::Super]);
        }
        key_bindings.push(
            KeyBinding {
                modifiers: right_mods,
                key: Key::L,
                action: Action::Builtin(BuiltinCommand::MoveRight),
            },
        );

        let mut launch_mods: Vec<Modifier> = Vec::new();
        launch_mods.push(Modifier::Alt);
        launch_mods.push(Modifier::Shift);
        proof {
            assert(launch_mods@ =~= seq![Modifier::Alt, Modifier::Shift]);
        }
        let mut launch_items: Vec<String> = Vec::new();
        launch_items.push(String::from_str("dolphin"));
        proof {
            assert(launch_items.deep_view() =~= seq![("dolphin")@]);
        }
        key_bindings.push(
            KeyBinding {
                modifiers: launch_mods,
                key: Key::F,
                action: Action::Custom(launch_items),
            },
        );

        Config { gaps: 8, shift_by: 10, key_bindings }
    }

    /// The position of the binding that matches the observed key symbol and
    /// modifier mask, scanning the most recently registered first.
    pub fn find_binding(&self, keysym: u64, mask: u32) -> (r: Option<usize>)
        ensures
            match r {
                Some(i) => i < self.key_bindings@.len() && lookup_action(
                    self.key_bindings@,
                    keysym,
                    mask,
                ) == Some(self.key_bindings@[i as int].action@),
                None => lookup_action(self.key_bindings@, keysym, mask) is None,
            },
    {
        let ghost bs = self.key_bindings@;
        let mut idx: usize = self.key_bindings.len();
        proof {
            assert(bs.take(idx as int) =~= bs);
        }
        while idx > 0
            invariant
                idx <= bs.len(),
                bs == self.key_bindings@,
                lookup_action(bs, keysym, mask) == lookup_action(bs.take(idx as int), keysym, mask),
            decreases idx,
        {
            let b = &self.key_bindings[idx - 1];
            proof {
                assert(bs.take(idx as int).last() == bs[idx - 1]);
                assert(bs.take(idx as int).drop_last() =~= bs.take(idx - 1));
            }
            if b.key.keysym() == keysym && b.get_mask() == mask {
                return Some(idx - 1);
            }
            idx = idx - 1;
        }
        proof {
            assert(bs.take(0) =~= Seq::<KeyBinding>::empty());
        }
        None
    }

    /// The key grabs the configured bindings ask for: one key symbol and
    /// modifier mask per binding, in registration order.
    pub fn grab_list(&self) -> (r: Vec<(u64, u32)>)
        ensures
            r@.len() == self.key_bindings@.len(),
            forall|i: int|
                0 <= i < r@.len() ==> (#[trigger] r@[i]).0
                    == self.key_bindings@[i].key.spec_keysym() && r@[i].1 == mask_of(
                    self.key_bindings@[i].modifiers@,
                ),
    {
        let mut r: Vec<(u64, u32)> = Vec::new();
        let mut i: usize = 0;
        while i < self.key_bindings.len()
            invariant
                i <= self.key_bindings@.len(),
                r@.len() == i,
                forall|k: int|
                    0 <= k < i ==> (#[trigger] r@[k]).0
                        == self.key_bindings@[k].key.spec_keysym() && r@[k].1 == mask_of(
                        self.key_bindings@[k].modifiers@,
                    ),
            decreases self.key_bindings@.len() - i,
        {
            let b = &self.key_bindings[i];
            r.push((b.key.keysym(), b.get_mask()));
            i = i + 1;
        }
        r
    }
}

} // verus!
