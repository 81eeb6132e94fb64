use vstd::prelude::*;

verus! {

/// A keyboard modifier the manager understands.
#[derive(Clone, Copy, PartialEq, Eq, Structural, Debug, Hash)]
pub enum Modifier {
    Shift,
    Alt,
    Super,
}

impl Modifier {
    /// The bit this modifier occupies in an event's modifier-state word
    /// (the display server's Shift, Mod1 and Mod4 bits).
    pub open spec fn spec_mask(self) -> u32 {
        match self {
            Modifier::Shift => 1,
            Modifier::Alt => 8,
            Modifier::Super => 64,
        }
    }

    /// Executable twin of `spec_mask`.
    #[verifier::when_used_as_spec(spec_mask)]
    pub fn mask(self) -> (m: u32)
        ensures
            m == self.spec_mask(),
    {
        match self {
            Modifier::Shift => 1,
            Modifier::Alt => 8,
            Modifier::Super => 64,
        }
    }

    /// The modifiers reported as held by an event's state word, listed in the
    /// fixed order Alt, Shift, Super.
    pub fn from_event(state: u32) -> (mods: Vec<Modifier>)
        ensures
            mods@ == state_modifiers(state),
    {
        let mut modifiers: Vec<Modifier> = Vec::new();
        if state & 8 != 0 {
            modifiers.push(Modifier::Alt);
        }
        if state & 1 != 0 {
            modifiers.push(Modifier::Shift);
        }
        if state & 64 != 0 {
            modifiers.push(Modifier::Super);
        }
        proof {
            assert(modifiers@ =~= state_modifiers(state));
        }
        modifiers
    }
}

/// The modifier list that `Modifier::from_event` reads out of a state word.
pub open spec fn state_modifiers(state: u32) -> Seq<Modifier> {
    let mods = Seq::<Modifier>::empty();
    let mods = if state & 8 != 0 {
        mods.push(Modifier::Alt)
    } else {
        mods
    };
    let mods = if state & 1 != 0 {
        mods.push(Modifier::Shift)
    } else {
        mods
    };
    if state & 64 != 0 {
        mods.push(Modifier::Super)
    } else {
        mods
    }
}

/// The combined modifier mask of a modifier list: the bitwise or of the
/// members' masks.
pub open spec fn mask_of(mods: Seq<Modifier>) -> u32
    decreases mods.len(),
{
    if mods.len() == 0 {
        0
    } else {
        mods[0].spec_mask() | mask_of(mods.drop_first())
    }
}

/// The mask determined by membership alone: one bit per modifier present.
pub open spec fn set_mask(mods: Seq<Modifier>) -> u32 {
    (if mods.contains(Modifier::Shift) {
        1u32
    } else {
        0u32
    }) | (if mods.contains(Modifier::Alt) {
        8u32
    } else {
        0u32
    }) | (if mods.contains(Modifier::Super) {
        64u32
    } else {
        0u32
    })
}

/// Appending a modifier ors its bit into the mask.
pub proof fn lemma_mask_of_push(mods: Seq<Modifier>, m: Modifier)
    ensures
        mask_of(mods.push(m)) == mask_of(mods) | m.spec_mask(),
    decreases mods.len(),
{
    let a = m.spec_mask();
    if mods.len() == 0 {
        assert(mods.push(m)[0] == m);
        assert(mods.push(m).drop_first() =~= Seq::<Modifier>::empty());
        assert(mask_of(mods.push(m)) == a | mask_of(Seq::<Modifier>::empty()));
        assert(mask_of(Seq::<Modifier>::empty()) == 0);
        assert(a | 0u32 == 0u32 | a) by (bit_vector);
        assert(mask_of(mods) == 0);
    } else {
        assert(mods.push(m)[0] == mods[0]);
        assert(mods.push(m).drop_first() =~= mods.drop_first().push(m));
        lemma_mask_of_push(mods.drop_first(), m);
        let h = mods[0].spec_mask();
        let r = mask_of(mods.drop_first());
        assert(mask_of(mods.push(m)) == h | (r | a));
        assert(mask_of(mods) == h | r);
        assert(h | (r | a) == (h | r) | a) by (bit_vector);
    }
}

/// The fold-based mask coincides with the membership-based mask: the mask of
/// a modifier list depends only on which modifiers it contains.
pub proof fn lemma_mask_of_is_set_mask(mods: Seq<Modifier>)
    ensures
        mask_of(mods) == set_mask(mods),
    decreases mods.len(),
{
    if mods.len() == 0 {
        assert(0u32 | 0u32 | 0u32 == 0u32) by (bit_vector);
    } else {
        let rest = mods.drop_first();
        lemma_mask_of_is_set_mask(rest);
        assert forall|m: Modifier| rest.contains(m) implies mods.contains(m) by {
            let i = choose|i: int| 0 <= i < rest.len() && rest[i] == m;
            assert(mods[i + 1] == m);
        }
        assert forall|m: Modifier| mods.contains(m) && m != mods[0] implies rest.contains(m) by {
            let i = choose|i: int| 0 <= i < mods.len() && mods[i] == m;
            assert(rest[i - 1] == m);
        }
        assert(mods.contains(mods[0]));
        let sr: u32 = if rest.contains(Modifier::Shift) {
            1u32
        } else {
            0u32
        };
        let ar: u32 = if rest.contains(Modifier::Alt) {
            8u32
        } else {
            0u32
        };
        let ur: u32 = if rest.contains(Modifier::Super) {
            64u32
        } else {
            0u32
        };
        assert(set_mask(rest) == (sr | ar) | ur);
        match mods[0] {
            Modifier::Shift => {
                assert(set_mask(mods) == (1u32 | ar) | ur);
                assert((1u32 | ((sr | ar) | ur)) == ((1u32 | ar) | ur)) by (bit_vector)
                    requires
                        sr == 0u32 || sr == 1u32,
                ;
            },
            Modifier::Alt => {
                assert(set_mask(mods) == (sr | 8u32) | ur);
                assert((8u32 | ((sr | ar) | ur)) == ((sr | 8u32) | ur)) by (bit_vector)
                    requires
                        ar == 0u32 || ar == 8u32,
                ;
            },
            Modifier::Super => {
                assert(set_mask(mods) == (sr | ar) | 64u32);
                assert((64u32 | ((sr | ar) | ur)) == ((sr | ar) | 64u32)) by (bit_vector)
                    requires
                        ur == 0u32 || ur == 64u32,
                ;
            },
        }
    }
}

/// Two modifier lists that contain the same modifiers produce the same mask,
/// whatever order they list them in: binding lookup cannot tell
/// {Super, Shift} from {Shift, Super}.
pub proof fn lemma_mask_order_independent(m1: Seq<Modifier>, m2: Seq<Modifier>)
    requires
        forall|m: Modifier| m1.contains(m) == m2.contains(m),
    ensures
        mask_of(m1) == mask_of(m2),
{
    lemma_mask_of_is_set_mask(m1);
    lemma_mask_of_is_set_mask(m2);
    assert(m1.contains(Modifier::Shift) == m2.contains(Modifier::Shift));
    assert(m1.contains(Modifier::Alt) == m2.contains(Modifier::Alt));
    assert(m1.contains(Modifier::Super) == m2.contains(Modifier::Super));
}

/// The mask of the modifiers extracted from a state word keeps exactly the
/// three modifier bits of that word.
pub proof fn lemma_state_modifiers_mask(state: u32)
    ensures
        mask_of(state_modifiers(state)) == state & 73,
{
    let a: u32 = state & 8;
    let s: u32 = state & 1;
    let u: u32 = state & 64;
    assert(a == 0 || a == 8) by (bit_vector)
        requires
            a == state & 8,
    ;
    assert(s == 0 || s == 1) by (bit_vector)
        requires
            s == state & 1,
    ;
    assert(u == 0 || u == 64) by (bit_vector)
        requires
            u == state & 64,
    ;
    let m0 = Seq::<Modifier>::empty();
    let m1 = if state & 8 != 0 {
        m0.push(Modifier::Alt)
    } else {
        m0
    };
    let m2 = if state & 1 != 0 {
        m1.push(Modifier::Shift)
    } else {
        m1
    };
    let m3 = if state & 64 != 0 {
        m2.push(Modifier::Super)
    } else {
        m2
    };
    assert(state_modifiers(state) == m3);
    if state & 8 != 0 {
        lemma_mask_of_push(m0, Modifier::Alt);
        assert(0u32 | 8u32 == 8u32) by (bit_vector);
    }
    assert(mask_of(m1) == a);
    if state & 1 != 0 {
        lemma_mask_of_push(m1, Modifier::Shift);
    } else {
        assert(a | 0u32 == a) by (bit_vector);
    }
    assert(mask_of(m2) == a | s);
    if state & 64 != 0 {
        lemma_mask_of_push(m2, Modifier::Super);
    } else {
        assert((a | s) | 0u32 == a | s) by (bit_vector);
    }
    assert(mask_of(m3) == (a | s) | u);
    assert((a | s) | u == state & 73) by (bit_vector)
        requires
            a == state & 8,
            s == state & 1,
            u == state & 64,
    ;
}

/// A key the manager can bind, named by the letter it carries.
#[derive(Clone, Copy, PartialEq, Eq, Structural, Debug, Hash)]
pub enum Key {
    Q,
    H,
    L,
    F,
}

impl Key {
    /// The display server's key symbol for this key: the Latin-1 code of the
    /// lower-case letter.
    pub open spec fn spec_keysym(self) -> u64 {
        match self {
            Key::Q => 0x71,
            Key::H => 0x68,
            Key::L => 0x6c,
            Key::F => 0x66,
        }
    }

    /// Executable twin of `spec_keysym`.
    #[verifier::when_used_as_spec(spec_keysym)]
    pub fn keysym(self) -> (k: u64)
        ensures
            k == self.spec_keysym(),
    {
        match self {
            Key::Q => 0x71,
            Key::H => 0x68,
            Key::L => 0x6c,
            Key::F => 0x66,
        }
    }
}

/// A builtin window-manager command.
#[derive(Clone, Copy, PartialEq, Eq, Structural, Debug, Hash)]
pub enum BuiltinCommand {
    Close,
    MoveLeft,
    MoveRight,
}

/// What a key binding triggers: a builtin command, or an external command
/// line (first item the program, the rest its arguments).
#[derive(Debug)]
pub enum Action {
    Builtin(BuiltinCommand),
    Custom(Vec<String>),
}

/// The mathematical value of an `Action`.
pub enum ActionView {
    Builtin(BuiltinCommand),
    Custom(Seq<Seq<char>>),
}

impl View for Action {
    type V = ActionView;

    open spec fn view(&self) -> ActionView {
        match self {
            Action::Builtin(b) => ActionView::Builtin(*b),
            Action::Custom(items) => ActionView::Custom(items.deep_view()),
        }
    }
}

impl DeepView for Action {
    type V = ActionView;

    open spec fn deep_view(&self) -> ActionView {
        self.view()
    }
}

/// A modifier set and a key, as observed in a key event.
pub struct KeyCombination {
    pub modifiers: Vec<Modifier>,
    pub key: Key,
}

impl KeyCombination {
    /// The combined modifier mask of this combination.
    pub fn get_mask(&self) -> (mask: u32)
        ensures
            mask == mask_of(self.modifiers@),
    {
        fold_mask(&self.modifiers)
    }
}

/// A registered binding: a modifier set and a key, and the action they
/// trigger.
pub struct KeyBinding {
    pub modifiers: Vec<Modifier>,
    pub key: Key,
    pub action: Action,
}

impl KeyBinding {
    /// The combined modifier mask of this binding.
    pub fn get_mask(&self) -> (mask: u32)
        ensures
            mask == mask_of(self.modifiers@),
    {
        fold_mask(&self.modifiers)
    }
}

/// The action of the binding that matches the observed key symbol and
/// modifier mask. Modifier sets are compared by mask, so the order modifiers
/// were registered or reported in is irrelevant; when several bindings match,
/// the last registered wins.
pub open spec fn lookup_action(bindings: Seq<KeyBinding>, keysym: u64, mask: u32) -> Option<
    ActionView,
>
    decreases bindings.len(),
{
    if bindings.len() == 0 {
        None
    } else if bindings.last().key.spec_keysym() == keysym && mask_of(bindings.last().modifiers@)
        == mask {
        Some(bindings.last().action@)
    } else {
        lookup_action(bindings.drop_last(), keysym, mask)
    }
}

/// Folds the masks of a modifier list together, least recent last.
pub(crate) fn fold_mask(mods: &Vec<Modifier>) -> (mask: u32)
    ensures
        mask == mask_of(mods@),
{
    let mut acc: u32 = 0;
    let mut i: usize = 0;
    while i < mods.len()
        invariant
            i <= mods@.len(),
            acc == mask_of(mods@.take(i as int)),
        decreases mods@.len() - i,
    {
        let m = mods[i].mask();
        proof {
            lemma_mask_of_push(mods@.take(i as int), mods@[i as int]);
            assert(mods@.take(i + 1) =~= mods@.take(i as int).push(mods@[i as int]));
            let t = mask_of(mods@.take(i as int));
            let mm = mods@[i as int].spec_mask();
            assert(mm | t == t | mm) by (bit_vector);
        }
        acc = m | acc;
        i = i + 1;
    }
    proof {
        assert(mods@.take(mods@.len() as int) =~= mods@);
    }
    acc
}

} // verus!
