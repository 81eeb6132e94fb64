use crate::client::Client;
use crate::display::DisplayCommand;
use vstd::prelude::*;

verus! {

/// No two clients of the sequence share a window handle.
pub open spec fn tag_wf(s: Seq<Client>) -> bool {
    forall|i: int, j: int|
        0 <= i < s.len() && 0 <= j < s.len() && i != j ==> s[i].window != s[j].window
}

/// Some client of the sequence carries the handle.
pub open spec fn has_handle(s: Seq<Client>, window: u64) -> bool {
    exists|i: int| 0 <= i < s.len() && s[i].window == window
}

/// What inserting a client leaves behind: unchanged when the handle is
/// already present, appended at the end otherwise.
pub open spec fn tag_add(s: Seq<Client>, client: Client) -> Seq<Client> {
    if has_handle(s, client.window) {
        s
    } else {
        s.push(client)
    }
}

/// The sequence with every client of the given handle deleted.
pub open spec fn tag_remove(s: Seq<Client>, window: u64) -> Seq<Client>
    decreases s.len(),
{
    if s.len() == 0 {
        s
    } else if s[0].window == window {
        tag_remove(s.drop_first(), window)
    } else {
        seq![s[0]] + tag_remove(s.drop_first(), window)
    }
}

/// How many clients of the sequence carry the handle.
pub open spec fn count_handle(s: Seq<Client>, window: u64) -> nat
    decreases s.len(),
{
    if s.len() == 0 {
        0
    } else {
        (if s[0].window == window {
            1nat
        } else {
            0nat
        }) + count_handle(s.drop_first(), window)
    }
}

/// The sequence rotated one position to the left: the first member moves to
/// the end.
pub open spec fn rotate_left_seq(s: Seq<Client>) -> Seq<Client> {
    if s.len() <= 1 {
        s
    } else {
        s.drop_first().push(s[0])
    }
}

/// The sequence rotated one position to the right: the last member moves to
/// the front.
pub open spec fn rotate_right_seq(s: Seq<Client>) -> Seq<Client> {
    if s.len() <= 1 {
        s
    } else {
        seq![s.last()] + s.drop_last()
    }
}

/// A rotation keeps the length, the handles present, and well-formedness.
pub proof fn lemma_rotate_left_properties(s: Seq<Client>)
    ensures
        rotate_left_seq(s).len() == s.len(),
        forall|w: u64| has_handle(rotate_left_seq(s), w) == has_handle(s, w),
        tag_wf(s) ==> tag_wf(rotate_left_seq(s)),
{
    let r = rotate_left_seq(s);
    if s.len() > 1 {
        assert forall|w: u64| has_handle(r, w) == has_handle(s, w) by {
            if has_handle(r, w) {
                let i = choose|i: int| 0 <= i < r.len() && r[i].window == w;
                if i == r.len() - 1 {
                    assert(s[0].window == w);
                } else {
                    assert(s[i + 1].window == w);
                }
            }
            if has_handle(s, w) {
                let i = choose|i: int| 0 <= i < s.len() && s[i].window == w;
                if i == 0 {
                    assert(r[s.len() - 1].window == w);
                } else {
                    assert(r[i - 1].window == w);
                }
            }
        }
        if tag_wf(s) {
            assert forall|i: int, j: int|
                0 <= i < r.len() && 0 <= j < r.len() && i != j implies r[i].window
                != r[j].window by {
                let si = if i == r.len() - 1 {
                    0int
                } else {
                    i + 1
                };
                let sj = if j == r.len() - 1 {
                    0int
                } else {
                    j + 1
                };
                assert(s[si].window != s[sj].window);
            }
        }
    }
}

/// A rotation keeps the length, the handles present, and well-formedness.
pub proof fn lemma_rotate_right_properties(s: Seq<Client>)
    ensures
        rotate_right_seq(s).len() == s.len(),
        forall|w: u64| has_handle(rotate_right_seq(s), w) == has_handle(s, w),
        tag_wf(s) ==> tag_wf(rotate_right_seq(s)),
{
    let r = rotate_right_seq(s);
    if s.len() > 1 {
        assert forall|w: u64| has_handle(r, w) == has_handle(s, w) by {
            if has_handle(r, w) {
                let i = choose|i: int| 0 <= i < r.len() && r[i].window == w;
                if i == 0 {
                    assert(s[s.len() - 1].window == w);
                } else {
                    assert(s[i - 1].window == w);
                }
            }
            if has_handle(s, w) {
                let i = choose|i: int| 0 <= i < s.len() && s[i].window == w;
                if i == s.len() - 1 {
                    assert(r[0].window == w);
                } else {
                    assert(r[i + 1].window == w);
                }
            }
        }
        if tag_wf(s) {
            assert forall|i: int, j: int|
                0 <= i < r.len() && 0 <= j < r.len() && i != j implies r[i].window
                != r[j].window by {
                let si = if i == 0 {
                    s.len() - 1
                } else {
                    i - 1
                };
                let sj = if j == 0 {
                    s.len() - 1
                } else {
                    j - 1
                };
                assert(s[si].window != s[sj].window);
            }
        }
    }
}

/// The two rotations are inverses of each other: rotating left and then
/// right, or right and then left, restores the original order.
pub proof fn lemma_rotate_inverse(s: Seq<Client>)
    ensures
        rotate_right_seq(rotate_left_seq(s)) == s,
        rotate_left_seq(rotate_right_seq(s)) == s,
{
    if s.len() > 1 {
        assert(rotate_right_seq(rotate_left_seq(s)) =~= s);
        assert(rotate_left_seq(rotate_right_seq(s)) =~= s);
    }
}

/// Two client sequences with the same handles position by position hold the
/// same handles and are equally well formed.
pub proof fn lemma_same_windows(s1: Seq<Client>, s2: Seq<Client>)
    requires
        s1.len() == s2.len(),
        forall|i: int| 0 <= i < s1.len() ==> s1[i].window == s2[i].window,
    ensures
        forall|w: u64| has_handle(s1, w) == has_handle(s2, w),
        tag_wf(s1) == tag_wf(s2),
{
    assert forall|w: u64| has_handle(s1, w) == has_handle(s2, w) by {
        if has_handle(s1, w) {
            let i = choose|i: int| 0 <= i < s1.len() && s1[i].window == w;
            assert(s2[i].window == w);
        }
        if has_handle(s2, w) {
            let i = choose|i: int| 0 <= i < s2.len() && s2[i].window == w;
            assert(s1[i].window == w);
        }
    }
}

/// One workspace: an ordered collection of clients, the most recently added
/// being the master. No two members share a handle.
pub struct Tag {
    windows: Vec<Client>,
}

impl View for Tag {
    type V = Seq<Client>;

    closed spec fn view(&self) -> Seq<Client> {
        self.windows@
    }
}

impl Tag {
    /// An empty workspace.
    pub fn new() -> (t: Tag)
        ensures
            t@ == Seq::<Client>::empty(),
    {
        Tag { windows: Vec::new() }
    }

    /// Whether some member carries the handle.
    pub fn window_contained(&self, window: u64) -> (b: bool)
        ensures
            b == has_handle(self@, window),
    {
        let mut i: usize = 0;
        while i < self.windows.len()
            invariant
                i <= self.windows@.len(),
                forall|k: int| 0 <= k < i ==> self.windows@[k].window != window,
            decreases self.windows@.len() - i,
        {
            if self.windows[i].window == window {
                return true;
            }
            i = i + 1;
        }
        false
    }

    /// Inserts the client at the end unless a member already carries its
    /// handle; a duplicate insertion is deliberately a no-op, so repeated
    /// configure requests cannot duplicate a window.
    pub fn add_new_window_if_not_exists(&mut self, client: Client)
        ensures
            final(self)@ == tag_add(old(self)@, client),
            tag_wf(old(self)@) ==> tag_wf(final(self)@),
    {
        if !self.window_contained(client.window) {
            self.windows.push(client);
        }
    }

    /// A read view of the members, in insertion order.
    pub fn get_windows(&self) -> (w: &Vec<Client>)
        ensures
            w@ == self@,
    {
        &self.windows
    }

    /// How many members the workspace holds.
    pub fn len(&self) -> (n: usize)
        ensures
            n == self@.len(),
    {
        self.windows.len()
    }

    /// Exclusive access to one member, for the layout engine to assign its
    /// geometry.
    pub fn get_window_mut(&mut self, i: usize) -> (c: &mut Client)
        requires
            i < old(self)@.len(),
        ensures
            *c == old(self)@[i as int],
            final(self)@ == old(self)@.update(i as int, *final(c)),
    {
        &mut self.windows[i]
    }

    /// The request that focuses the given window.
    pub fn set_focus(&self, window: u64) -> (cmd: DisplayCommand)
        ensures
            cmd@ == (crate::display::CommandView::SetFocus { window }),
    {
        DisplayCommand::SetFocus { window }
    }

    /// The requests that make the member with this handle visible and hand it
    /// the input focus; no requests when no member carries the handle.
    pub fn map_window(&self, window: u64) -> (cmds: Vec<DisplayCommand>)
        ensures
            has_handle(self@, window) ==> cmds.deep_view() == seq![
                crate::display::CommandView::MapWindow { window },
                crate::display::CommandView::SetFocus { window },
            ],
            !has_handle(self@, window) ==> cmds@.len() == 0,
    {
        let mut cmds: Vec<DisplayCommand> = Vec::new();
        if self.window_contained(window) {
            cmds.push(DisplayCommand::MapWindow { window });
            cmds.push(self.set_focus(window));
            proof {
                assert(cmds.deep_view() =~= seq![
                    crate::display::CommandView::MapWindow { window },
                    crate::display::CommandView::SetFocus { window },
                ]);
            }
        }
        cmds
    }

    /// Rotates the insertion order one position to the left: the oldest
    /// member becomes the master. A workspace of at most one member is left
    /// alone.
    pub fn rotate_left(&mut self)
        ensures
            final(self)@ == rotate_left_seq(old(self)@),
    {
        if self.windows.len() > 1 {
            let c = self.windows.remove(0);
            self.windows.push(c);
            proof {
                assert(self.windows@ =~= rotate_left_seq(old(self).windows@));
            }
        }
    }

    /// Rotates the insertion order one position to the right: the master
    /// moves to the bottom of the stack. The inverse of `rotate_left`.
    pub fn rotate_right(&mut self)
        ensures
            final(self)@ == rotate_right_seq(old(self)@),
    {
        if self.windows.len() > 1 {
            let c = match self.windows.pop() {
                Some(c) => c,
                None => {
                    proof {
                        assert(false);
                    }
                    Client::new(0)
                },
            };
            self.windows.insert(0, c);
            proof {
                assert(self.windows@ =~= rotate_right_seq(old(self).windows@));
            }
        }
    }

    /// Deletes every member carrying the handle (at most one, once the
    /// workspace is well formed); a no-op when the handle is absent.
    pub fn remove_window(&mut self, window: u64)
        ensures
            final(self)@ == tag_remove(old(self)@, window),
            !has_handle(final(self)@, window),
            tag_wf(old(self)@) ==> tag_wf(final(self)@),
    {
        let ghost s = self.windows@;
        let mut kept: Vec<Client> = Vec::new();
        let mut i: usize = 0;
        proof {
            assert(s.skip(0) =~= s);
            assert(kept@ + tag_remove(s, window) =~= tag_remove(s, window));
        }
        while i < self.windows.len()
            invariant
                s == self.windows@,
                i <= s.len(),
                tag_remove(s, window) == kept@ + tag_remove(s.skip(i as int), window),
                forall|k: int| 0 <= k < kept@.len() ==> #[trigger] kept@[k].window != window,
                forall|k: int|
                    0 <= k < kept@.len() ==> exists|j: int| 0 <= j < i && #[trigger] kept@[k]
                        == s[j],
            decreases s.len() - i,
        {
            let c = self.windows[i];
            proof {
                assert(s.skip(i as int)[0] == s[i as int]);
                assert(s.skip(i as int).drop_first() =~= s.skip(i + 1));
            }
            if c.window != window {
                proof {
                    assert(tag_remove(s.skip(i as int), window) == seq![s[i as int]] + tag_remove(
                        s.skip(i + 1),
                        window,
                    ));
                    assert(kept@ + tag_remove(s.skip(i as int), window) =~= kept@.push(c)
                        + tag_remove(s.skip(i + 1), window));
                }
                kept.push(c);
            }
            i = i + 1;
        }
        proof {
            assert(s.skip(s.len() as int) =~= Seq::<Client>::empty());
            assert(kept@ + tag_remove(s.skip(s.len() as int), window) =~= kept@);
        }
        self.windows = kept;
        proof {
            if has_handle(self.windows@, window) {
                let i = choose|i: int|
                    0 <= i < self.windows@.len() && self.windows@[i].window == window;
                assert(self.windows@[i].window != window);
            }
            if tag_wf(s) {
                assert forall|a: int, b: int|
                    0 <= a < self.windows@.len() && 0 <= b < self.windows@.len() && a
                        != b implies self.windows@[a].window != self.windows@[b].window by {
                    let ja = choose|j: int| 0 <= j < s.len() && self.windows@[a] == s[j];
                    let jb = choose|j: int| 0 <= j < s.len() && self.windows@[b] == s[j];
                    if ja == jb {
                        lemma_kept_distinct_positions(s, window, self.windows@, a, b, ja);
                    }
                }
            }
        }
    }
}

/// Helper for `remove_window`: two distinct positions of the kept sequence
/// cannot both originate from the same source position, because the kept
/// sequence never repeats a source element more often than the source held
/// it. Rather than track positions, this derives a contradiction from the
/// counts of the shared handle.
proof fn lemma_kept_distinct_positions(
    s: Seq<Client>,
    window: u64,
    kept: Seq<Client>,
    a: int,
    b: int,
    j: int,
)
    requires
        tag_wf(s),
        kept == tag_remove(s, window),
        0 <= a < kept.len(),
        0 <= b < kept.len(),
        a != b,
        0 <= j < s.len(),
        kept[a] == s[j],
        kept[b] == s[j],
    ensures
        kept[a].window != kept[b].window,
{
    lemma_tag_remove_count(s, window, kept[a].window);
    lemma_count_distinct(s, kept[a].window);
    lemma_count_at_least_two(kept, kept[a].window, a, b);
}

/// A sequence that holds the handle at two distinct positions counts it at
/// least twice.
proof fn lemma_count_at_least_two(s: Seq<Client>, window: u64, a: int, b: int)
    requires
        0 <= a < s.len(),
        0 <= b < s.len(),
        a != b,
        s[a].window == window,
        s[b].window == window,
    ensures
        count_handle(s, window) >= 2,
    decreases s.len(),
{
    if a == 0 || b == 0 {
        let other = if a == 0 {
            b
        } else {
            a
        };
        lemma_count_positive(s.drop_first(), window, other - 1);
    } else {
        lemma_count_at_least_two(s.drop_first(), window, a - 1, b - 1);
    }
}

/// A sequence that holds the handle at some position counts it at least once.
proof fn lemma_count_positive(s: Seq<Client>, window: u64, i: int)
    requires
        0 <= i < s.len(),
        s[i].window == window,
    ensures
        count_handle(s, window) >= 1,
    decreases s.len(),
{
    if i > 0 {
        lemma_count_positive(s.drop_first(), window, i - 1);
    }
}

/// Removal never increases how often any handle occurs.
proof fn lemma_tag_remove_count(s: Seq<Client>, window: u64, other: u64)
    ensures
        count_handle(tag_remove(s, window), other) <= count_handle(s, other),
    decreases s.len(),
{
    if s.len() == 0 {
    } else {
        lemma_tag_remove_count(s.drop_first(), window, other);
        if s[0].window != window {
            let rest = tag_remove(s.drop_first(), window);
            assert((seq![s[0]] + rest).drop_first() =~= rest);
        }
    }
}

/// In a well-formed sequence every handle occurs at most once.
proof fn lemma_count_distinct(s: Seq<Client>, window: u64)
    requires
        tag_wf(s),
    ensures
        count_handle(s, window) <= 1,
    decreases s.len(),
{
    if s.len() > 0 {
        assert forall|i: int, j: int|
            0 <= i < s.drop_first().len() && 0 <= j < s.drop_first().len() && i
                != j implies s.drop_first()[i].window != s.drop_first()[j].window by {
            assert(s[i + 1].window != s[j + 1].window);
        }
        lemma_count_distinct(s.drop_first(), window);
        if s[0].window == window {
            if count_handle(s.drop_first(), window) >= 1 {
                lemma_count_witness(s.drop_first(), window);
                let i = choose|i: int|
                    0 <= i < s.drop_first().len() && s.drop_first()[i].window == window;
                assert(s[0].window != s[i + 1].window);
            }
        }
    }
}

/// A positive count yields a witness position.
proof fn lemma_count_witness(s: Seq<Client>, window: u64)
    requires
        count_handle(s, window) >= 1,
    ensures
        has_handle(s, window),
    decreases s.len(),
{
    if s.len() > 0 {
        if s[0].window == window {
            assert(s[0].window == window);
        } else {
            lemma_count_witness(s.drop_first(), window);
            let i = choose|i: int|
                0 <= i < s.drop_first().len() && s.drop_first()[i].window == window;
            assert(s[i + 1].window == window);
        }
    }
}

/// Removing one handle keeps exactly the clients with the other handles:
/// a handle survives removal if and only if it was present and is not the
/// removed one.
pub proof fn lemma_tag_remove_has(s: Seq<Client>, window: u64, other: u64)
    ensures
        has_handle(tag_remove(s, window), other) == (has_handle(s, other) && other != window),
    decreases s.len(),
{
    if s.len() == 0 {
    } else {
        lemma_tag_remove_has(s.drop_first(), window, other);
        let rest = tag_remove(s.drop_first(), window);
        if s[0].window == window {
            if has_handle(s, other) && other != window {
                let i = choose|i: int| 0 <= i < s.len() && s[i].window == other;
                assert(s.drop_first()[i - 1].window == other);
            }
            if has_handle(rest, other) {
                assert(has_handle(s.drop_first(), other));
                let i = choose|i: int|
                    0 <= i < s.drop_first().len() && s.drop_first()[i].window == other;
                assert(s[i + 1].window == other);
            }
        } else {
            let whole = seq![s[0]] + rest;
            assert(whole.drop_first() =~= rest);
            if has_handle(s, other) && other != window {
                let i = choose|i: int| 0 <= i < s.len() && s[i].window == other;
                if i == 0 {
                    assert(whole[0].window == other);
                } else {
                    assert(s.drop_first()[i - 1].window == other);
                    let k = choose|k: int| 0 <= k < rest.len() && rest[k].window == other;
                    assert(whole[k + 1].window == other);
                }
            }
            if has_handle(whole, other) {
                let i = choose|i: int| 0 <= i < whole.len() && whole[i].window == other;
                if i == 0 {
                    assert(s[0].window == other);
                } else {
                    assert(rest[i - 1].window == other);
                    assert(has_handle(s.drop_first(), other));
                    let k = choose|k: int|
                        0 <= k < s.drop_first().len() && s.drop_first()[k].window == other;
                    assert(s[k + 1].window == other);
                }
            }
        }
    }
}

/// Insertion adds exactly the inserted handle: a handle is present afterwards
/// if and only if it was present before or is the client's own.
pub proof fn lemma_tag_add_has(s: Seq<Client>, client: Client, other: u64)
    ensures
        has_handle(tag_add(s, client), other) == (has_handle(s, other) || other == client.window),
{
    let post = tag_add(s, client);
    if has_handle(s, client.window) {
        if has_handle(s, other) && other == client.window {
        }
    } else {
        if has_handle(s, other) {
            let i = choose|i: int| 0 <= i < s.len() && s[i].window == other;
            assert(post[i].window == other);
        }
        if other == client.window {
            assert(post[s.len() as int].window == other);
        }
        if has_handle(post, other) && !has_handle(s, other) {
            let i = choose|i: int| 0 <= i < post.len() && post[i].window == other;
            if i < s.len() {
                assert(s[i].window == other);
            }
        }
    }
}

/// Inserting a client twice in a row is the same as inserting it once, and
/// a well-formed workspace then holds exactly one member with that handle.
pub proof fn lemma_add_idempotent(s: Seq<Client>, client: Client)
    requires
        tag_wf(s),
    ensures
        tag_add(tag_add(s, client), client) == tag_add(s, client),
        count_handle(tag_add(s, client), client.window) == 1,
{
    let once = tag_add(s, client);
    if has_handle(s, client.window) {
        lemma_count_distinct(s, client.window);
        let i = choose|i: int| 0 <= i < s.len() && s[i].window == client.window;
        lemma_count_positive(s, client.window, i);
    } else {
        assert(once[s.len() as int].window == client.window);
        assert(has_handle(once, client.window));
        lemma_count_push(s, client, client.window);
        lemma_count_zero(s, client.window);
    }
}

/// Appending a client adds one to the count of its handle and nothing to any
/// other.
proof fn lemma_count_push(s: Seq<Client>, client: Client, window: u64)
    ensures
        count_handle(s.push(client), window) == count_handle(s, window) + (
        if client.window == window {
            1nat
        } else {
            0nat
        }),
    decreases s.len(),
{
    if s.len() == 0 {
        assert(s.push(client)[0] == client);
        assert(s.push(client).drop_first() =~= Seq::<Client>::empty());
        assert(count_handle(Seq::<Client>::empty(), window) == 0);
        assert(count_handle(s, window) == 0);
    } else {
        assert(s.push(client)[0] == s[0]);
        assert(s.push(client).drop_first() =~= s.drop_first().push(client));
        lemma_count_push(s.drop_first(), client, window);
    }
}

/// A handle that no member carries has count zero.
proof fn lemma_count_zero(s: Seq<Client>, window: u64)
    requires
        !has_handle(s, window),
    ensures
        count_handle(s, window) == 0,
    decreases s.len(),
{
    if s.len() > 0 {
        assert(s[0].window != window);
        assert forall|i: int|
            0 <= i < s.drop_first().len() implies s.drop_first()[i].window != window by {
            assert(s[i + 1].window != window);
        }
        lemma_count_zero(s.drop_first(), window);
    }
}

} // verus!
