use crate::client::Client;
use crate::config::Config;
use crate::display::{CommandView, DisplayCommand};
use crate::tag::{
    has_handle, lemma_rotate_left_properties, lemma_rotate_right_properties, lemma_same_windows,
    rotate_left_seq, rotate_right_seq, tag_wf, Tag,
};
use vstd::arithmetic::div_mod::{
    lemma_div_is_ordered, lemma_div_multiples_vanish, lemma_div_nonincreasing,
    lemma_div_pos_is_pos, lemma_fundamental_div_mod, lemma_mod_division_less_than_divisor,
};
use vstd::arithmetic::mul::{
    lemma_mul_basics, lemma_mul_inequality, lemma_mul_is_commutative,
    lemma_mul_is_distributive_add,
    lemma_mul_is_distributive_sub_other_way,
};
use vstd::prelude::*;

verus! {

/// A rectangle assigned by the layout: position and size in pixels.
pub struct Rect {
    pub x: int,
    pub y: int,
    pub width: int,
    pub height: int,
}

/// Whether the tiling arithmetic stays meaningful for `n` clients: a uniform
/// border of gaps fits the screen both ways, and one gap per client fits the
/// screen height. Outside this region a re-layout is skipped, since no sane
/// geometry exists.
pub open spec fn can_tile(gaps: int, width: int, height: int, n: int) -> bool {
    &&& 2 * gaps <= width
    &&& 2 * gaps <= height
    &&& n * gaps <= height
}

/// The bounds the stack layout gives client `i` of `n` (in insertion order,
/// the last inserted being the master): a single client fills the screen
/// minus a border of gaps; otherwise the master takes the left column and
/// the remaining clients split the right column top to bottom, most recently
/// inserted first. Heights are subject to integer-division truncation.
pub open spec fn tile_rect(gaps: int, width: int, height: int, n: int, i: int) -> Rect
    recommends
        0 <= i < n,
{
    if n == 1 {
        Rect { x: gaps, y: gaps, width: width - 2 * gaps, height: height - 2 * gaps }
    } else {
        let master_width = width / 2 - gaps / 2 - gaps;
        if i == n - 1 {
            Rect { x: gaps, y: gaps, width: master_width, height: height - 2 * gaps }
        } else {
            let stack_height = (height - n * gaps) / (n - 1);
            Rect {
                x: master_width + 2 * gaps,
                y: gaps + (n - 2 - i) * (stack_height + gaps),
                width: master_width,
                height: stack_height,
            }
        }
    }
}

/// The client with its geometry replaced by the rectangle.
pub open spec fn with_rect(c: Client, r: Rect) -> Client {
    Client {
        window: c.window,
        x: r.x as i32,
        y: r.y as i32,
        width: r.width as i32,
        height: r.height as i32,
    }
}

/// The move-resize request that pushes a client's geometry to the display
/// server.
pub open spec fn move_resize_cmd(c: Client) -> CommandView {
    CommandView::MoveResize {
        window: c.window,
        x: c.x as int,
        y: c.y as int,
        width: c.width as int,
        height: c.height as int,
    }
}

/// The clients after a re-layout: each keeps its handle and its position in
/// the sequence, with the geometry `tile_rect` assigns.
pub open spec fn tiled_clients(s: Seq<Client>, gaps: int, width: int, height: int) -> Seq<Client> {
    Seq::new(s.len(), |i: int| with_rect(s[i], tile_rect(gaps, width, height, s.len() as int, i)))
}

/// The requests a re-layout issues: one move-resize per client, the master
/// first, then the stack top to bottom.
pub open spec fn tiled_commands(s: Seq<Client>, gaps: int, width: int, height: int) -> Seq<
    CommandView,
> {
    Seq::new(
        s.len(),
        |k: int| move_resize_cmd(tiled_clients(s, gaps, width, height)[s.len() - 1 - k]),
    )
}

/// What a re-layout leaves behind: when the configuration can tile the
/// screen, every client carries the computed geometry and the commands push
/// it out; otherwise nothing changes and nothing is issued. Either way the
/// handles and their order are untouched.
pub open spec fn resize_post(
    pre: Seq<Client>,
    post: Seq<Client>,
    cmds: Seq<CommandView>,
    gaps: int,
    width: int,
    height: int,
) -> bool {
    &&& post.len() == pre.len()
    &&& (forall|i: int| 0 <= i < pre.len() ==> post[i].window == pre[i].window)
    &&& (can_tile(gaps, width, height, pre.len() as int) ==> post == tiled_clients(
        pre,
        gaps,
        width,
        height,
    ) && cmds == tiled_commands(pre, gaps, width, height))
    &&& (!can_tile(gaps, width, height, pre.len() as int) ==> post == pre && cmds.len() == 0)
}

/// A layout strategy: computes geometry for a workspace's clients and can
/// reorder them. Every strategy preserves which clients the workspace holds;
/// `resize` also preserves their order.
pub trait Layout {
    /// Recomputes and applies bounds for every client of the tag.
    fn resize(&mut self, tag: &mut Tag, config: &Config, width: i32, height: i32) -> (cmds: Vec<
        DisplayCommand,
    >)
        requires
            width >= 0,
            height >= 0,
        ensures
            final(tag)@.len() == old(tag)@.len(),
            forall|i: int|
                0 <= i < old(tag)@.len() ==> final(tag)@[i].window == old(tag)@[i].window,
            tag_wf(old(tag)@) ==> tag_wf(final(tag)@),
    ;

    /// Reorders the tag's insertion order one step and re-tiles.
    fn shift_left(
        &mut self,
        tag: &mut Tag,
        config: &Config,
        shift_by: usize,
        width: i32,
        height: i32,
        current: Option<u64>,
    ) -> (cmds: Vec<DisplayCommand>)
        requires
            width >= 0,
            height >= 0,
        ensures
            final(tag)@.len() == old(tag)@.len(),
            forall|w: u64| has_handle(final(tag)@, w) == has_handle(old(tag)@, w),
            tag_wf(old(tag)@) ==> tag_wf(final(tag)@),
    ;

    /// Reorders the tag's insertion order the other way and re-tiles.
    fn shift_right(
        &mut self,
        tag: &mut Tag,
        config: &Config,
        shift_by: usize,
        width: i32,
        height: i32,
        current: Option<u64>,
    ) -> (cmds: Vec<DisplayCommand>)
        requires
            width >= 0,
            height >= 0,
        ensures
            final(tag)@.len() == old(tag)@.len(),
            forall|w: u64| has_handle(final(tag)@, w) == has_handle(old(tag)@, w),
            tag_wf(old(tag)@) ==> tag_wf(final(tag)@),
    ;
}

/// For nonnegative `x`: a value is at most `x / 2` exactly when its double is
/// at most `x`.
proof fn lemma_half(g: int, x: int)
    requires
        g >= 0,
        x >= 0,
    ensures
        (g <= x / 2) == (2 * g <= x),
{
    lemma_fundamental_div_mod(x, 2);
    lemma_mod_division_less_than_divisor(x, 2);
    if g <= x / 2 {
        lemma_mul_inequality(g, x / 2, 2);
        lemma_mul_is_commutative(g, 2);
        lemma_mul_is_commutative(x / 2, 2);
    }
    if 2 * g <= x {
        lemma_mul_is_commutative(2, g);
        lemma_div_multiples_vanish(g, 2);
        lemma_div_is_ordered(2 * g, x, 2);
    }
}

/// For a positive divisor and nonnegative bound: `n` is at most `h / g`
/// exactly when `n * g` is at most `h`.
proof fn lemma_le_div(n: int, g: int, h: int)
    requires
        n >= 0,
        g > 0,
        h >= 0,
    ensures
        (n <= h / g) == (n * g <= h),
{
    lemma_fundamental_div_mod(h, g);
    lemma_mod_division_less_than_divisor(h, g);
    if n <= h / g {
        lemma_mul_inequality(n, h / g, g);
        lemma_mul_is_commutative(h / g, g);
    }
    if n * g <= h {
        lemma_mul_is_commutative(n, g);
        lemma_div_multiples_vanish(n, g);
        lemma_div_is_ordered(g * n, h, g);
    }
}

/// Division of a nonnegative value by a positive divisor: the quotient is
/// nonnegative, at most the dividend, and multiplying back stays below the
/// dividend.
proof fn lemma_div_bounds(a: int, d: int)
    requires
        a >= 0,
        d > 0,
    ensures
        0 <= a / d,
        a / d <= a,
        d * (a / d) <= a,
{
    lemma_div_pos_is_pos(a, d);
    lemma_div_nonincreasing(a, d);
    lemma_fundamental_div_mod(a, d);
    lemma_mod_division_less_than_divisor(a, d);
}

/// Whether `can_tile` holds, decided executably.
fn fits(gaps: usize, width: i32, height: i32, n: usize) -> (b: bool)
    requires
        width >= 0,
        height >= 0,
    ensures
        b == can_tile(gaps as int, width as int, height as int, n as int),
{
    proof {
        lemma_half(gaps as int, width as int);
        lemma_half(gaps as int, height as int);
    }
    let half_w = (width / 2) as usize;
    let half_h = (height / 2) as usize;
    if gaps > half_w || gaps > half_h {
        return false;
    }
    if n == 0 || gaps == 0 {
        proof {
            assert((n as int) * (gaps as int) == 0) by {
                if n == 0 {
                    assert((n as int) * (gaps as int) == 0);
                } else {
                    lemma_mul_is_commutative(n as int, gaps as int);
                }
            }
        }
        return true;
    }
    let q = (height as usize) / gaps;
    proof {
        lemma_le_div(n as int, gaps as int, height as int);
    }
    n <= q
}

/// The master/stack tiling strategy.
pub struct StackLayout {}

impl StackLayout {
    pub fn new() -> (l: StackLayout)
        ensures
            l == (StackLayout {  }),
    {
        StackLayout {  }
    }

    /// Recomputes and applies bounds for every client of the tag: master
    /// column on the left, stack column on the right.
    pub fn resize(&mut self, tag: &mut Tag, config: &Config, width: i32, height: i32) -> (cmds: Vec<
        DisplayCommand,
    >)
        requires
            width >= 0,
            height >= 0,
        ensures
            resize_post(
                old(tag)@,
                final(tag)@,
                cmds.deep_view(),
                config.gaps as int,
                width as int,
                height as int,
            ),
            tag_wf(old(tag)@) ==> tag_wf(final(tag)@),
    {
        let ghost pre = tag@;
        let ghost g = config.gaps as int;
        let ghost w = width as int;
        let ghost h = height as int;
        let n = tag.len();
        let mut cmds: Vec<DisplayCommand> = Vec::new();
        if !fits(config.gaps, width, height, n) {
            return cmds;
        }
        let ghost tiled = tiled_clients(pre, g, w, h);
        let ghost tiled_cmds = tiled_commands(pre, g, w, h);
        if n == 0 {
            proof {
                assert(tag@ =~= tiled);
                assert(cmds.deep_view() =~= tiled_cmds);
            }
            return cmds;
        }
        proof {
            lemma_half(g, w);
            lemma_half(g, h);
        }
        let gi: i32 = config.gaps as i32;
        if n == 1 {
            let c = tag.get_window_mut(0);
            let cmd = c.set_bounds(gi, gi, width - 2 * gi, height - 2 * gi);
            cmds.push(cmd);
            proof {
                assert(tag@ =~= tiled);
                assert(cmds.deep_view() =~= tiled_cmds);
                lemma_same_windows(pre, tag@);
            }
            return cmds;
        }
        // At least two clients: master column left, stack column right.
        proof {
            lemma_fundamental_div_mod(w, 2);
            lemma_mod_division_less_than_divisor(w, 2);
            lemma_fundamental_div_mod(g, 2);
            lemma_mod_division_less_than_divisor(g, 2);
        }
        let master_width: i32 = width / 2 - gi / 2 - gi;
        let left_height: i32 = height - 2 * gi;
        let ghost mw = w / 2 - g / 2 - g;
        let master = tag.get_window_mut(n - 1);
        let master_cmd = master.set_bounds(gi, gi, master_width, left_height);
        cmds.push(master_cmd);
        // Stack column: the height is split evenly, one gap between
        // neighbours, rounding slack left at the bottom.
        let ghost sh = (h - (n as int) * g) / (n as int - 1);
        proof {
            lemma_div_bounds(h - (n as int) * g, n as int - 1);
        }
        let gapped: usize = n * config.gaps;
        let stack_height: i32 = (((height as usize) - gapped) / (n - 1)) as i32;
        let offset_x: i32 = master_width + 2 * gi;
        let mut offset_y: i32 = gi;
        let mut k: usize = 1;
        proof {
            assert(tag@[n - 1] == tiled[n - 1]);
            assert(cmds.deep_view() =~= tiled_cmds.take(1));
        }
        while k < n
            invariant
                1 <= k <= n,
                pre.len() == n,
                n >= 2,
                width >= 0,
                height >= 0,
                g == config.gaps as int,
                w == width as int,
                h == height as int,
                can_tile(g, w, h, n as int),
                tiled == tiled_clients(pre, g, w, h),
                tiled_cmds == tiled_commands(pre, g, w, h),
                gi == g,
                master_width == mw,
                mw == w / 2 - g / 2 - g,
                offset_x == mw + 2 * g,
                stack_height == sh,
                sh == (h - (n as int) * g) / (n as int - 1),
                0 <= sh,
                (n as int - 1) * sh <= h - (n as int) * g,
                tag@.len() == n,
                forall|i: int| 0 <= i < n - k ==> tag@[i] == pre[i],
                forall|i: int| n - k <= i < n ==> tag@[i] == tiled[i],
                cmds.deep_view() == tiled_cmds.take(k as int),
                cmds@.len() == k,
                offset_y == g + (k - 1) * (sh + g),
            decreases n - k,
        {
            proof {
                lemma_mul_basics(sh + g);
                lemma_mul_basics(g);
                lemma_mul_inequality(k as int, n as int - 1, sh + g);
                lemma_mul_is_distributive_add(n as int - 1, sh, g);
                lemma_mul_is_distributive_add(k as int - 1, sh, g);
                lemma_mul_is_distributive_sub_other_way(g, n as int, 1);
                assert((k as int) * (sh + g) == (k as int - 1) * (sh + g) + (sh + g)) by {
                    lemma_mul_is_distributive_sub_other_way(sh + g, k as int, 1);
                    lemma_mul_basics(sh + g);
                }
                assert((k as int) * (sh + g) <= h - g);
            }
            let idx = n - 1 - k;
            let c = tag.get_window_mut(idx);
            let cmd = c.set_bounds(offset_x, offset_y, master_width, stack_height);
            cmds.push(cmd);
            proof {
                assert(tile_rect(g, w, h, n as int, idx as int) == (Rect {
                    x: mw + 2 * g,
                    y: g + (k as int - 1) * (sh + g),
                    width: mw,
                    height: sh,
                }));
                assert(tag@[idx as int] == tiled[idx as int]);
                assert(cmds.deep_view() =~= tiled_cmds.take(k as int + 1));
            }
            offset_y = offset_y + stack_height + gi;
            k = k + 1;
        }
        proof {
            assert(tag@ =~= tiled);
            assert(cmds.deep_view() =~= tiled_cmds);
            lemma_same_windows(pre, tag@);
        }
        cmds
    }

    /// Rotates the tag's insertion order one position to the left — the
    /// oldest client becomes the master — and immediately re-tiles. The rule
    /// is deliberately independent of `shift_by` and of the focused window:
    /// one key press always moves the order by exactly one rank, and
    /// `shift_right` undoes it.
    pub fn shift_left(
        &mut self,
        tag: &mut Tag,
        config: &Config,
        shift_by: usize,
        width: i32,
        height: i32,
        current: Option<u64>,
    ) -> (cmds: Vec<DisplayCommand>)
        requires
            width >= 0,
            height >= 0,
        ensures
            resize_post(
                rotate_left_seq(old(tag)@),
                final(tag)@,
                cmds.deep_view(),
                config.gaps as int,
                width as int,
                height as int,
            ),
            final(tag)@.len() == old(tag)@.len(),
            forall|w: u64| has_handle(final(tag)@, w) == has_handle(old(tag)@, w),
            tag_wf(old(tag)@) ==> tag_wf(final(tag)@),
    {
        tag.rotate_left();
        proof {
            lemma_rotate_left_properties(old(tag)@);
        }
        let ghost mid = tag@;
        let cmds = self.resize(tag, config, width, height);
        proof {
            lemma_same_windows(mid, tag@);
        }
        cmds
    }

    /// Rotates the tag's insertion order one position to the right — the
    /// master moves to the bottom of the stack — and immediately re-tiles.
    /// The inverse of `shift_left`.
    pub fn shift_right(
        &mut self,
        tag: &mut Tag,
        config: &Config,
        shift_by: usize,
        width: i32,
        height: i32,
        current: Option<u64>,
    ) -> (cmds: Vec<DisplayCommand>)
        requires
            width >= 0,
            height >= 0,
        ensures
            resize_post(
                rotate_right_seq(old(tag)@),
                final(tag)@,
                cmds.deep_view(),
                config.gaps as int,
                width as int,
                height as int,
            ),
            final(tag)@.len() == old(tag)@.len(),
            forall|w: u64| has_handle(final(tag)@, w) == has_handle(old(tag)@, w),
            tag_wf(old(tag)@) ==> tag_wf(final(tag)@),
    {
        tag.rotate_right();
        proof {
            lemma_rotate_right_properties(old(tag)@);
        }
        let ghost mid = tag@;
        let cmds = self.resize(tag, config, width, height);
        proof {
            lemma_same_windows(mid, tag@);
        }
        cmds
    }
}

impl Layout for StackLayout {
    fn resize(&mut self, tag: &mut Tag, config: &Config, width: i32, height: i32) -> (cmds: Vec<
        DisplayCommand,
    >) {
        StackLayout::resize(self, tag, config, width, height)
    }

    fn shift_left(
        &mut self,
        tag: &mut Tag,
        config: &Config,
        shift_by: usize,
        width: i32,
        height: i32,
        current: Option<u64>,
    ) -> (cmds: Vec<DisplayCommand>) {
        StackLayout::shift_left(self, tag, config, shift_by, width, height, current)
    }

    fn shift_right(
        &mut self,
        tag: &mut Tag,
        config: &Config,
        shift_by: usize,
        width: i32,
        height: i32,
        current: Option<u64>,
    ) -> (cmds: Vec<DisplayCommand>) {
        StackLayout::shift_right(self, tag, config, shift_by, width, height, current)
    }
}

} // verus!
