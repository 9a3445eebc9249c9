//! The theme picker of the settings modal: the themes grouped under
//! collapsible headings, the cursor moving over the visible rows, and the
//! scroll that keeps it in view.
//!
//! The theme catalogue is given as plain values: each group by the bit it
//! takes in the collapsed-groups mask, and each theme option by its
//! group.

use vstd::prelude::*;

use crate::settings::{keep_cursor_visible, keep_visible_spec};

verus! {

/// A row of the theme tree.
#[derive(Clone, Copy, Debug, PartialEq, Eq, Structural)]
pub enum ThemeTreeRow {
    /// A group heading; `group` is its bit index in the collapsed mask.
    Group { group: u8, collapsed: bool },
    /// A theme, by its index among the options.
    Theme { option_index: usize, last_in_group: bool },
}

/// The theme catalogue: the groups in display order, and the group of
/// each option in option order.
#[derive(Clone, Debug)]
pub struct ThemeCatalog {
    pub groups: Vec<u8>,
    pub option_groups: Vec<u8>,
}

impl ThemeCatalog {
    /// Every group fits the 32-bit mask, and the tree's rows can be counted
    /// in an `isize`.
    pub open spec fn wf(&self) -> bool {
        &&& forall|i: int| 0 <= i < self.groups@.len() ==> #[trigger] self.groups@[i] < 32
        &&& forall|i: int|
            0 <= i < self.option_groups@.len() ==> #[trigger] self.option_groups@[i] < 32
        &&& self.groups@.len() * (self.option_groups@.len() + 1) <= isize::MAX
    }
}

/// Whether group `g` is collapsed in `mask`.
pub open spec fn collapsed_in(mask: u32, g: u8) -> bool {
    mask & (1u32 << g) != 0
}

/// The options of group `g`, in option order.
pub open spec fn options_in(option_groups: Seq<u8>, g: u8) -> Seq<usize>
    decreases option_groups.len(),
{
    if option_groups.len() == 0 {
        Seq::empty()
    } else {
        let prev = options_in(option_groups.drop_last(), g);
        if option_groups.last() == g {
            prev.push((option_groups.len() - 1) as usize)
        } else {
            prev
        }
    }
}

/// The rows of a group's themes, the last one marked.
pub open spec fn theme_rows(options: Seq<usize>) -> Seq<ThemeTreeRow> {
    Seq::new(
        options.len(),
        |k: int| ThemeTreeRow::Theme { option_index: options[k], last_in_group: k == options.len() - 1 },
    )
}

/// A group's heading, then its themes unless it is collapsed.
pub open spec fn group_rows(option_groups: Seq<u8>, g: u8, mask: u32) -> Seq<ThemeTreeRow> {
    seq![ThemeTreeRow::Group { group: g, collapsed: collapsed_in(mask, g) }] + if collapsed_in(
        mask,
        g,
    ) {
        Seq::empty()
    } else {
        theme_rows(options_in(option_groups, g))
    }
}

/// The tree's rows: each group in order with its visible themes.
pub open spec fn tree_rows_spec(groups: Seq<u8>, option_groups: Seq<u8>, mask: u32) -> Seq<
    ThemeTreeRow,
>
    decreases groups.len(),
{
    if groups.len() == 0 {
        Seq::empty()
    } else {
        tree_rows_spec(groups.drop_last(), option_groups, mask) + group_rows(
            option_groups,
            groups.last(),
            mask,
        )
    }
}

pub open spec fn rows_of(catalog: ThemeCatalog, mask: u32) -> Seq<ThemeTreeRow> {
    tree_rows_spec(catalog.groups@, catalog.option_groups@, mask)
}

proof fn lemma_options_in_bounds(option_groups: Seq<u8>, g: u8)
    requires
        option_groups.len() <= usize::MAX,
    ensures
        options_in(option_groups, g).len() <= option_groups.len(),
        forall|k: int|
            0 <= k < options_in(option_groups, g).len() ==> #[trigger] options_in(
                option_groups,
                g,
            )[k] < option_groups.len() && option_groups[options_in(option_groups, g)[k] as int]
                == g,
    decreases option_groups.len(),
{
    if option_groups.len() > 0 {
        lemma_options_in_bounds(option_groups.drop_last(), g);
        let prev = options_in(option_groups.drop_last(), g);
        let cur = options_in(option_groups, g);
        assert forall|k: int| 0 <= k < cur.len() implies #[trigger] cur[k] < option_groups.len()
            && option_groups[cur[k] as int] == g by {
            if k < prev.len() {
                assert(cur[k] == prev[k]);
                assert(option_groups.drop_last()[prev[k] as int] == option_groups[prev[k] as int]);
            } else {
                assert(option_groups.last() == g);
                assert(cur == prev.push((option_groups.len() - 1) as usize));
                assert(cur[k] == option_groups.len() - 1);
            }
        }
    }
}

/// Every theme row of the tree names an option of the catalogue, and the
/// tree has at most one row per group and option.
proof fn lemma_tree_rows_bounds(groups: Seq<u8>, option_groups: Seq<u8>, mask: u32)
    requires
        option_groups.len() <= usize::MAX,
    ensures
        tree_rows_spec(groups, option_groups, mask).len() <= groups.len() * (
        option_groups.len() + 1),
        forall|k: int|
            0 <= k < tree_rows_spec(groups, option_groups, mask).len() ==> (#[trigger] tree_rows_spec(
                groups,
                option_groups,
                mask,
            )[k] matches ThemeTreeRow::Theme { option_index, .. } ==> option_index
                < option_groups.len()),
        forall|k: int|
            0 <= k < tree_rows_spec(groups, option_groups, mask).len() ==> (#[trigger] tree_rows_spec(
                groups,
                option_groups,
                mask,
            )[k] matches ThemeTreeRow::Group { group, .. } ==> groups.contains(group)),
    decreases groups.len(),
{
    if groups.len() > 0 {
        lemma_tree_rows_bounds(groups.drop_last(), option_groups, mask);
        lemma_options_in_bounds(option_groups, groups.last());
        let prev = tree_rows_spec(groups.drop_last(), option_groups, mask);
        let gr = group_rows(option_groups, groups.last(), mask);
        let all = tree_rows_spec(groups, option_groups, mask);
        assert(all == prev + gr);
        assert(gr.len() <= option_groups.len() + 1);
        assert((groups.len() - 1) * (option_groups.len() + 1) + (option_groups.len() + 1)
            == groups.len() * (option_groups.len() + 1)) by (nonlinear_arith);
        assert forall|k: int| 0 <= k < all.len() implies (#[trigger] all[k] matches ThemeTreeRow::Theme {
            option_index,
            ..
        } ==> option_index < option_groups.len()) by {
            if k >= prev.len() {
                assert(all[k] == gr[k - prev.len()]);
            }
        }
        assert forall|k: int| 0 <= k < all.len() implies (#[trigger] all[k] matches ThemeTreeRow::Group {
            group,
            ..
        } ==> groups.contains(group)) by {
            if k >= prev.len() {
                assert(all[k] == gr[k - prev.len()]);
                assert(groups[groups.len() - 1] == groups.last());
            } else {
                if let ThemeTreeRow::Group { group, .. } = all[k] {
                    assert(prev[k] == all[k]);
                    assert(groups.drop_last().contains(group));
                    let j = choose|j: int| 0 <= j < groups.drop_last().len() && groups.drop_last()[j] == group;
                    assert(groups[j] == group);
                }
            }
        }
    }
}

/// The options of group `g` among all of `option_groups`.
fn options_of_group(option_groups: &Vec<u8>, g: u8) -> (r: Vec<usize>)
    ensures
        r@ == options_in(option_groups@, g),
{
    let mut r: Vec<usize> = Vec::new();
    let mut i: usize = 0;
    while i < option_groups.len()
        invariant
            i <= option_groups@.len(),
            r@ == options_in(option_groups@.take(i as int), g),
        decreases option_groups@.len() - i,
    {
        proof {
            assert(option_groups@.take(i + 1).drop_last() =~= option_groups@.take(i as int));
        }
        if option_groups[i] == g {
            r.push(i);
        }
        i = i + 1;
    }
    assert(option_groups@.take(option_groups@.len() as int) =~= option_groups@);
    r
}

/// The rows of the tree with the groups of `mask` collapsed.
pub fn tree_rows(catalog: &ThemeCatalog, mask: u32) -> (r: Vec<ThemeTreeRow>)
    requires
        catalog.wf(),
    ensures
        r@ == rows_of(*catalog, mask),
{
    let mut rows: Vec<ThemeTreeRow> = Vec::new();
    let mut i: usize = 0;
    while i < catalog.groups.len()
        invariant
            catalog.wf(),
            i <= catalog.groups@.len(),
            rows@ == tree_rows_spec(catalog.groups@.take(i as int), catalog.option_groups@, mask),
        decreases catalog.groups@.len() - i,
    {
        let g = catalog.groups[i];
        assert(g < 32);
        let ghost before = rows@;
        let collapsed = mask & (1u32 << g) != 0;
        rows.push(ThemeTreeRow::Group { group: g, collapsed });
        if !collapsed {
            let options = options_of_group(&catalog.option_groups, g);
            let n = options.len();
            let mut k: usize = 0;
            while k < n
                invariant
                    n == options@.len(),
                    k <= n,
                    rows@ == before + seq![ThemeTreeRow::Group { group: g, collapsed: false }]
                        + theme_rows(options@).take(k as int),
                decreases n - k,
            {
                rows.push(ThemeTreeRow::Theme { option_index: options[k], last_in_group: k + 1 == n });
                proof {
                    assert(theme_rows(options@).take(k + 1) =~= theme_rows(options@).take(
                        k as int,
                    ).push(theme_rows(options@)[k as int]));
                }
                k = k + 1;
            }
            assert(theme_rows(options@).take(n as int) =~= theme_rows(options@));
        }
        proof {
            let t = catalog.groups@.take(i + 1);
            assert(t.drop_last() =~= catalog.groups@.take(i as int));
            assert(t.last() == g);
            assert(rows@ =~= tree_rows_spec(t, catalog.option_groups@, mask));
        }
        i = i + 1;
    }
    assert(catalog.groups@.take(catalog.groups@.len() as int) =~= catalog.groups@);
    rows
}


// ---------------------------------------------------------------------------
// Finding rows

/// What a row is looked up by.
#[derive(Clone, Copy, Debug, PartialEq, Eq, Structural)]
pub enum RowQuery {
    /// The heading of a group.
    Heading(u8),
    /// The row of an option.
    Option(usize),
    /// Any theme row of a group.
    GroupTheme(u8),
}

pub open spec fn row_matches(row: ThemeTreeRow, q: RowQuery, option_groups: Seq<u8>) -> bool {
    match q {
        RowQuery::Heading(g) => row matches ThemeTreeRow::Group { group, .. } && group == g,
        RowQuery::Option(o) => row matches ThemeTreeRow::Theme { option_index, .. }
            && option_index == o,
        RowQuery::GroupTheme(g) => row matches ThemeTreeRow::Theme { option_index, .. }
            && option_index < option_groups.len() && option_groups[option_index as int] == g,
    }
}

/// The first row from `i` on that matches `q`.
pub open spec fn first_match(
    rows: Seq<ThemeTreeRow>,
    q: RowQuery,
    option_groups: Seq<u8>,
    i: int,
) -> Option<int>
    decreases rows.len() - i,
{
    if i < 0 || i >= rows.len() {
        None
    } else if row_matches(rows[i], q, option_groups) {
        Some(i)
    } else {
        first_match(rows, q, option_groups, i + 1)
    }
}

proof fn lemma_first_match_found(
    rows: Seq<ThemeTreeRow>,
    q: RowQuery,
    option_groups: Seq<u8>,
    i: int,
)
    requires
        0 <= i,
    ensures
        first_match(rows, q, option_groups, i) matches Some(k) ==> i <= k < rows.len()
            && row_matches(rows[k], q, option_groups),
    decreases rows.len() - i,
{
    if i < rows.len() && !row_matches(rows[i], q, option_groups) {
        lemma_first_match_found(rows, q, option_groups, i + 1);
    }
}

fn row_matches_exec(row: ThemeTreeRow, q: RowQuery, option_groups: &Vec<u8>) -> (r: bool)
    ensures
        r == row_matches(row, q, option_groups@),
{
    match q {
        RowQuery::Heading(g) => match row {
            ThemeTreeRow::Group { group, .. } => group == g,
            _ => false,
        },
        RowQuery::Option(o) => match row {
            ThemeTreeRow::Theme { option_index, .. } => option_index == o,
            _ => false,
        },
        RowQuery::GroupTheme(g) => match row {
            ThemeTreeRow::Theme { option_index, .. } => option_index < option_groups.len()
                && option_groups[option_index] == g,
            _ => false,
        },
    }
}

/// The first row that matches `q`.
pub fn find_row(rows: &Vec<ThemeTreeRow>, q: RowQuery, option_groups: &Vec<u8>) -> (r: Option<
    usize,
>)
    ensures
        match r {
            Some(k) => first_match(rows@, q, option_groups@, 0) == Some(k as int),
            None => first_match(rows@, q, option_groups@, 0) is None,
        },
{
    let mut i: usize = 0;
    while i < rows.len()
        invariant
            i <= rows@.len(),
            first_match(rows@, q, option_groups@, 0) == first_match(
                rows@,
                q,
                option_groups@,
                i as int,
            ),
        decreases rows@.len() - i,
    {
        if row_matches_exec(rows[i], q, option_groups) {
            return Some(i);
        }
        i = i + 1;
    }
    None
}

// ---------------------------------------------------------------------------
// The picker's state

/// The picker's cursor, scroll and collapsed groups, and the option last
/// applied.
#[derive(Clone, Copy, Debug, PartialEq, Eq, Structural)]
pub struct ThemeTree {
    pub theme_index: usize,
    pub selected_row: usize,
    pub scroll_offset: usize,
    pub visible_height: usize,
    pub collapsed_groups: u32,
}

pub open spec fn sat_dec(n: int) -> int {
    if n > 0 {
        n - 1
    } else {
        0
    }
}

/// `t` scrolled so that its cursor shows.
pub open spec fn with_scroll(t: ThemeTree, cat: ThemeCatalog) -> ThemeTree {
    ThemeTree {
        scroll_offset: keep_visible_spec(
            t.selected_row,
            t.scroll_offset,
            t.visible_height,
            rows_of(cat, t.collapsed_groups).len() as usize,
        ) as usize,
        ..t
    }
}

/// `t` with group `g` expanded.
pub open spec fn expanded(t: ThemeTree, cat: ThemeCatalog, g: u8) -> ThemeTree {
    with_scroll(ThemeTree { collapsed_groups: t.collapsed_groups & !(1u32 << g), ..t }, cat)
}

/// `t` with group `g` collapsed: the cursor goes to its heading.
pub open spec fn collapsed(t: ThemeTree, cat: ThemeCatalog, g: u8) -> ThemeTree {
    let mask = t.collapsed_groups | (1u32 << g);
    let rows = rows_of(cat, mask);
    let sel = match first_match(rows, RowQuery::Heading(g), cat.option_groups@, 0) {
        Some(k) => k,
        None => if (t.selected_row as int) < sat_dec(rows.len() as int) {
            t.selected_row as int
        } else {
            sat_dec(rows.len() as int)
        },
    };
    with_scroll(ThemeTree { selected_row: sel as usize, collapsed_groups: mask, ..t }, cat)
}

/// `t` with option `index` applied, when there is such an option.
pub open spec fn applied(t: ThemeTree, cat: ThemeCatalog, index: usize) -> (ThemeTree, Option<
    usize,
>) {
    if index < cat.option_groups@.len() {
        (with_scroll(ThemeTree { theme_index: index, ..t }, cat), Some(index))
    } else {
        (t, None)
    }
}

/// `t` with option `index` (clamped to the last option) selected: its
/// group expanded, the cursor on its row, and the option applied.
pub open spec fn selected_index(t: ThemeTree, cat: ThemeCatalog, index: usize) -> (ThemeTree, Option<
    usize,
>) {
    let last = sat_dec(cat.option_groups@.len() as int);
    let clamped = (if (index as int) < last {
        index as int
    } else {
        last
    }) as usize;
    let t1 = expanded(t, cat, cat.option_groups@[clamped as int]);
    let sel = match first_match(
        rows_of(cat, t1.collapsed_groups),
        RowQuery::Option(clamped),
        cat.option_groups@,
        0,
    ) {
        Some(k) => k as usize,
        None => t1.selected_row,
    };
    let t2 = ThemeTree { theme_index: clamped, selected_row: sel, ..t1 };
    let (t3, r) = applied(t2, cat, clamped);
    (with_scroll(t3, cat), r)
}

/// `t` with the cursor moved by `delta` rows within the tree, applying
/// the option it lands on.
pub open spec fn moved(t: ThemeTree, cat: ThemeCatalog, delta: isize) -> (ThemeTree, Option<usize>) {
    let rows = rows_of(cat, t.collapsed_groups);
    let last = sat_dec(rows.len() as int);
    let v = t.selected_row + delta;
    let sel = if v < 0 {
        0
    } else if v > last {
        last
    } else {
        v
    };
    let t1 = ThemeTree { selected_row: sel as usize, ..t };
    let (t2, r) = if sel < rows.len() {
        match rows[sel] {
            ThemeTreeRow::Theme { option_index, .. } => applied(t1, cat, option_index),
            _ => (t1, None),
        }
    } else {
        (t1, None)
    };
    (with_scroll(t2, cat), r)
}

/// Collapsing a group and expanding it again gives back the mask it had,
/// when it was expanded.
pub proof fn lemma_collapse_expand_undo(mask: u32, g: u8)
    requires
        g < 32,
        !collapsed_in(mask, g),
    ensures
        (mask | (1u32 << g)) & !(1u32 << g) == mask,
        collapsed_in(mask | (1u32 << g), g),
        !collapsed_in(mask & !(1u32 << g), g),
{
    assert((mask & (1u32 << g)) == 0u32 ==> (mask | (1u32 << g)) & !(1u32 << g) == mask)
        by (bit_vector)
        requires
            g < 32,
    ;
    assert((mask | (1u32 << g)) & (1u32 << g) != 0u32) by (bit_vector)
        requires
            g < 32,
    ;
    assert((mask & !(1u32 << g)) & (1u32 << g) == 0u32) by (bit_vector)
        requires
            g < 32,
    ;
}

/// Collapsing or expanding a group leaves every other group as it was.
pub proof fn lemma_other_groups_kept(mask: u32, g: u8, h: u8)
    requires
        g < 32,
        h < 32,
        g != h,
    ensures
        collapsed_in(mask | (1u32 << g), h) == collapsed_in(mask, h),
        collapsed_in(mask & !(1u32 << g), h) == collapsed_in(mask, h),
{
    assert(((mask | (1u32 << g)) & (1u32 << h) != 0u32) == (mask & (1u32 << h) != 0u32))
        by (bit_vector)
        requires
            g < 32,
            h < 32,
            g != h,
    ;
    assert(((mask & !(1u32 << g)) & (1u32 << h) != 0u32) == (mask & (1u32 << h) != 0u32))
        by (bit_vector)
        requires
            g < 32,
            h < 32,
            g != h,
    ;
}

/// After the scroll is kept, the cursor's row is in view.
pub proof fn lemma_cursor_in_view(selected: usize, scroll: usize, visible: usize, total: usize)
    requires
        selected < total,
    ensures
        keep_visible_spec(selected, scroll, visible, total) <= selected < keep_visible_spec(
            selected,
            scroll,
            visible,
            total,
        ) + (if visible > 1 {
            visible as int
        } else {
            1
        }),
{
}

impl ThemeTree {
    /// The cursor on the first row, nothing collapsed, one row tall.
    pub fn new() -> (r: Self)
        ensures
            r == (ThemeTree {
                theme_index: 0,
                selected_row: 0,
                scroll_offset: 0,
                visible_height: 1,
                collapsed_groups: 0,
            }),
    {
        ThemeTree {
            theme_index: 0,
            selected_row: 0,
            scroll_offset: 0,
            visible_height: 1,
            collapsed_groups: 0,
        }
    }

    /// Records how many rows the picker shows, at least one.
    pub fn set_visible_height(&mut self, height: usize)
        ensures
            *final(self) == (ThemeTree {
                visible_height: if height > 1 {
                    height
                } else {
                    1
                },
                ..*old(self)
            }),
    {
        self.visible_height = if height > 1 {
            height
        } else {
            1
        };
    }

    /// Whether group `g` is collapsed.
    pub fn group_collapsed(&self, g: u8) -> (r: bool)
        requires
            g < 32,
        ensures
            r == collapsed_in(self.collapsed_groups, g),
    {
        self.collapsed_groups & (1u32 << g) != 0
    }

    /// Scrolls so that the cursor's row shows.
    pub fn keep_cursor_visible(&mut self, cat: &ThemeCatalog)
        requires
            cat.wf(),
        ensures
            *final(self) == with_scroll(*old(self), *cat),
    {
        let rows = tree_rows(cat, self.collapsed_groups);
        self.scroll_offset = keep_cursor_visible(
            self.selected_row,
            self.scroll_offset,
            self.visible_height,
            rows.len(),
        );
    }

    /// Expands group `g`.
    pub fn expand_group(&mut self, cat: &ThemeCatalog, g: u8)
        requires
            cat.wf(),
            g < 32,
        ensures
            *final(self) == expanded(*old(self), *cat, g),
    {
        self.collapsed_groups = self.collapsed_groups & !(1u32 << g);
        self.keep_cursor_visible(cat);
    }

    /// Collapses group `g` and puts the cursor on its heading.
    pub fn collapse_group(&mut self, cat: &ThemeCatalog, g: u8)
        requires
            cat.wf(),
            g < 32,
        ensures
            *final(self) == collapsed(*old(self), *cat, g),
    {
        self.collapsed_groups = self.collapsed_groups | (1u32 << g);
        let rows = tree_rows(cat, self.collapsed_groups);
        self.selected_row = match find_row(&rows, RowQuery::Heading(g), &cat.option_groups) {
            Some(k) => k,
            None => {
                let last: usize = if rows.len() > 0 {
                    rows.len() - 1
                } else {
                    0
                };
                if self.selected_row < last {
                    self.selected_row
                } else {
                    last
                }
            },
        };
        self.keep_cursor_visible(cat);
    }

    /// Applies option `index`, when there is one; gives the option applied.
    pub fn apply_index(&mut self, cat: &ThemeCatalog, index: usize) -> (r: Option<usize>)
        requires
            cat.wf(),
        ensures
            (*final(self), r) == applied(*old(self), *cat, index),
    {
        if index < cat.option_groups.len() {
            self.theme_index = index;
            self.keep_cursor_visible(cat);
            Some(index)
        } else {
            None
        }
    }

    /// Selects option `index` (or the last one): expands its group, puts
    /// the cursor on it and applies it.
    pub fn select_index(&mut self, cat: &ThemeCatalog, index: usize) -> (r: Option<usize>)
        requires
            cat.wf(),
            cat.option_groups@.len() > 0,
        ensures
            (*final(self), r) == selected_index(*old(self), *cat, index),
    {
        let last = cat.option_groups.len() - 1;
        let clamped = if index < last {
            index
        } else {
            last
        };
        self.expand_group(cat, cat.option_groups[clamped]);
        self.theme_index = clamped;
        let rows = tree_rows(cat, self.collapsed_groups);
        match find_row(&rows, RowQuery::Option(clamped), &cat.option_groups) {
            Some(k) => {
                self.selected_row = k;
            },
            None => {},
        }
        let r = self.apply_index(cat, clamped);
        self.keep_cursor_visible(cat);
        r
    }

    /// Moves the cursor by `delta` rows, applying the option it lands on.
    pub fn move_cursor(&mut self, cat: &ThemeCatalog, delta: isize) -> (r: Option<usize>)
        requires
            cat.wf(),
        ensures
            (*final(self), r) == moved(*old(self), *cat, delta),
            rows_of(*cat, old(self).collapsed_groups).len() > 0 ==> final(self).selected_row
                < rows_of(*cat, final(self).collapsed_groups).len(),
    {
        let rows = tree_rows(cat, self.collapsed_groups);
        let option_count = cat.option_groups.len();
        proof {
            assert(cat.option_groups@.len() == option_count);
            lemma_tree_rows_bounds(cat.groups@, cat.option_groups@, self.collapsed_groups);
            assert(rows@.len() <= cat.groups@.len() * (cat.option_groups@.len() + 1));
        }
        let last: usize = if rows.len() > 0 {
            rows.len() - 1
        } else {
            0
        };
        let v: i128 = self.selected_row as i128 + delta as i128;
        self.selected_row = if v < 0 {
            0
        } else if v > last as i128 {
            last
        } else {
            v as usize
        };
        let r = if self.selected_row < rows.len() {
            match rows[self.selected_row] {
                ThemeTreeRow::Theme { option_index, .. } => self.apply_index(cat, option_index),
                _ => None,
            }
        } else {
            None
        };
        self.keep_cursor_visible(cat);
        r
    }
}


/// `t` after the Left key: a heading's group, or a theme's group, is
/// collapsed (a collapsed heading stays as it is).
pub open spec fn went_left(t: ThemeTree, cat: ThemeCatalog) -> ThemeTree {
    let rows = rows_of(cat, t.collapsed_groups);
    if t.selected_row < rows.len() {
        match rows[t.selected_row as int] {
            ThemeTreeRow::Group { group, collapsed: c } => if !c {
                collapsed(t, cat, group)
            } else {
                t
            },
            ThemeTreeRow::Theme { option_index, .. } => collapsed(
                t,
                cat,
                cat.option_groups@[option_index as int],
            ),
        }
    } else {
        t
    }
}

/// `t` after the Right key: a collapsed heading expands; an expanded one
/// moves the cursor to its first theme and applies it.
pub open spec fn went_right(t: ThemeTree, cat: ThemeCatalog) -> (ThemeTree, Option<usize>) {
    let rows = rows_of(cat, t.collapsed_groups);
    if t.selected_row < rows.len() {
        match rows[t.selected_row as int] {
            ThemeTreeRow::Group { group, collapsed: c } => if c {
                (expanded(t, cat, group), None)
            } else {
                match first_match(rows, RowQuery::GroupTheme(group), cat.option_groups@, 0) {
                    Some(k) => {
                        let t1 = ThemeTree { selected_row: k as usize, ..t };
                        let (t2, r) = match rows[k] {
                            ThemeTreeRow::Theme { option_index, .. } => applied(
                                t1,
                                cat,
                                option_index,
                            ),
                            _ => (t1, None),
                        };
                        (with_scroll(t2, cat), r)
                    },
                    None => (t, None),
                }
            },
            _ => (t, None),
        }
    } else {
        (t, None)
    }
}

/// `t` after Enter: a heading toggles its group, a theme is selected.
pub open spec fn toggled(t: ThemeTree, cat: ThemeCatalog) -> (ThemeTree, Option<usize>) {
    let rows = rows_of(cat, t.collapsed_groups);
    if t.selected_row < rows.len() {
        match rows[t.selected_row as int] {
            ThemeTreeRow::Group { group, collapsed: c } => if c {
                (expanded(t, cat, group), None)
            } else {
                (collapsed(t, cat, group), None)
            },
            ThemeTreeRow::Theme { option_index, .. } => selected_index(t, cat, option_index),
        }
    } else {
        (t, None)
    }
}

/// `t` pointed at option `option`, the draft's theme: its group expanded
/// and the cursor on its row (the first row when it has none).
pub open spec fn synced(t: ThemeTree, cat: ThemeCatalog, option: usize) -> ThemeTree {
    let t1 = expanded(
        ThemeTree { theme_index: option, ..t },
        cat,
        cat.option_groups@[option as int],
    );
    let sel = match first_match(
        rows_of(cat, t1.collapsed_groups),
        RowQuery::Option(option),
        cat.option_groups@,
        0,
    ) {
        Some(k) => k as usize,
        None => 0,
    };
    with_scroll(ThemeTree { selected_row: sel, ..t1 }, cat)
}

impl ThemeTree {
    /// The Left key.
    pub fn cursor_left(&mut self, cat: &ThemeCatalog)
        requires
            cat.wf(),
        ensures
            *final(self) == went_left(*old(self), *cat),
    {
        let rows = tree_rows(cat, self.collapsed_groups);
        let option_count = cat.option_groups.len();
        proof {
            assert(cat.option_groups@.len() == option_count);
            lemma_tree_rows_bounds(cat.groups@, cat.option_groups@, self.collapsed_groups);
        }
        if self.selected_row < rows.len() {
            let row = rows[self.selected_row];
            proof {
                assert(rows@[self.selected_row as int] == row);
            }
            match row {
                ThemeTreeRow::Group { group, collapsed: c } => {
                    if !c {
                        proof {
                            let j = choose|j: int|
                                0 <= j < cat.groups@.len() && cat.groups@[j] == group;
                            assert(cat.groups@[j] < 32);
                        }
                        self.collapse_group(cat, group);
                    }
                },
                ThemeTreeRow::Theme { option_index, .. } => {
                    let g = cat.option_groups[option_index];
                    assert(g < 32);
                    self.collapse_group(cat, g);
                },
            }
        }
    }

    /// The Right key; gives the option applied, if any.
    pub fn cursor_right(&mut self, cat: &ThemeCatalog) -> (r: Option<usize>)
        requires
            cat.wf(),
        ensures
            (*final(self), r) == went_right(*old(self), *cat),
    {
        let rows = tree_rows(cat, self.collapsed_groups);
        let option_count = cat.option_groups.len();
        proof {
            assert(cat.option_groups@.len() == option_count);
            lemma_tree_rows_bounds(cat.groups@, cat.option_groups@, self.collapsed_groups);
        }
        if self.selected_row >= rows.len() {
            return None;
        }
        let row = rows[self.selected_row];
        match row {
            ThemeTreeRow::Group { group, collapsed: c } => {
                proof {
                    assert(rows@[self.selected_row as int] == row);
                    let j = choose|j: int| 0 <= j < cat.groups@.len() && cat.groups@[j] == group;
                    assert(cat.groups@[j] < 32);
                }
                if c {
                    self.expand_group(cat, group);
                    None
                } else {
                    match find_row(&rows, RowQuery::GroupTheme(group), &cat.option_groups) {
                        Some(k) => {
                            proof {
                                lemma_first_match_found(
                                    rows@,
                                    RowQuery::GroupTheme(group),
                                    cat.option_groups@,
                                    0,
                                );
                            }
                            self.selected_row = k;
                            let r = match rows[k] {
                                ThemeTreeRow::Theme { option_index, .. } => self.apply_index(
                                    cat,
                                    option_index,
                                ),
                                _ => None,
                            };
                            self.keep_cursor_visible(cat);
                            r
                        },
                        None => None,
                    }
                }
            },
            _ => None,
        }
    }

    /// Enter: toggles a heading's group, or selects a theme; gives the
    /// option applied, if any.
    pub fn toggle_row(&mut self, cat: &ThemeCatalog) -> (r: Option<usize>)
        requires
            cat.wf(),
        ensures
            (*final(self), r) == toggled(*old(self), *cat),
    {
        let rows = tree_rows(cat, self.collapsed_groups);
        let option_count = cat.option_groups.len();
        proof {
            assert(cat.option_groups@.len() == option_count);
            lemma_tree_rows_bounds(cat.groups@, cat.option_groups@, self.collapsed_groups);
        }
        if self.selected_row >= rows.len() {
            return None;
        }
        let row = rows[self.selected_row];
        proof {
            assert(rows@[self.selected_row as int] == row);
        }
        match row {
            ThemeTreeRow::Group { group, collapsed: c } => {
                proof {
                    let j = choose|j: int| 0 <= j < cat.groups@.len() && cat.groups@[j] == group;
                    assert(cat.groups@[j] < 32);
                }
                if c {
                    self.expand_group(cat, group);
                } else {
                    self.collapse_group(cat, group);
                }
                None
            },
            ThemeTreeRow::Theme { option_index, .. } => self.select_index(cat, option_index),
        }
    }

    /// Points the picker at `option`, the draft's theme.
    pub fn sync_to_option(&mut self, cat: &ThemeCatalog, option: usize)
        requires
            cat.wf(),
            option < cat.option_groups@.len(),
        ensures
            *final(self) == synced(*old(self), *cat, option),
    {
        self.theme_index = option;
        self.expand_group(cat, cat.option_groups[option]);
        let rows = tree_rows(cat, self.collapsed_groups);
        self.selected_row = match find_row(&rows, RowQuery::Option(option), &cat.option_groups) {
            Some(k) => k,
            None => 0,
        };
        self.keep_cursor_visible(cat);
    }
}


/// The cursor is on a row of the tree, unless the tree has none.
pub open spec fn cursor_on_row(t: ThemeTree, cat: ThemeCatalog) -> bool {
    rows_of(cat, t.collapsed_groups).len() == 0 || t.selected_row < rows_of(
        cat,
        t.collapsed_groups,
    ).len()
}

/// Expanding a group never removes rows from the tree.
proof fn lemma_expand_rows_grow(groups: Seq<u8>, option_groups: Seq<u8>, mask: u32, g: u8)
    requires
        g < 32,
        forall|i: int| 0 <= i < groups.len() ==> #[trigger] groups[i] < 32,
    ensures
        tree_rows_spec(groups, option_groups, mask & !(1u32 << g)).len() >= tree_rows_spec(
            groups,
            option_groups,
            mask,
        ).len(),
    decreases groups.len(),
{
    if groups.len() > 0 {
        let d = groups.drop_last();
        assert forall|i: int| 0 <= i < d.len() implies #[trigger] d[i] < 32 by {
            assert(d[i] == groups[i]);
        }
        lemma_expand_rows_grow(d, option_groups, mask, g);
        let h = groups.last();
        assert(groups[groups.len() - 1] == h);
        assert(h < 32);
        let m = mask & !(1u32 << g);
        assert((m & (1u32 << h)) != 0u32 ==> (mask & (1u32 << h)) != 0u32) by (bit_vector)
            requires
                m == mask & !(1u32 << g),
                g < 32,
                h < 32,
        ;
    }
}

/// The cursor stays on a row of the tree through every move of the
/// picker: scrolling, expanding, collapsing, applying, selecting, the
/// arrow keys, Enter, and pointing the picker at the draft's theme.
pub proof fn lemma_cursor_stays_on_tree(
    t: ThemeTree,
    cat: ThemeCatalog,
    g: u8,
    index: usize,
    delta: isize,
    option: usize,
)
    requires
        cat.wf(),
        cursor_on_row(t, cat),
        g < 32,
        option < cat.option_groups@.len(),
    ensures
        cursor_on_row(with_scroll(t, cat), cat),
        cursor_on_row(expanded(t, cat, g), cat),
        cursor_on_row(collapsed(t, cat, g), cat),
        cursor_on_row(applied(t, cat, index).0, cat),
        cursor_on_row(selected_index(t, cat, index).0, cat),
        cursor_on_row(moved(t, cat, delta).0, cat),
        cursor_on_row(went_left(t, cat), cat),
        cursor_on_row(went_right(t, cat).0, cat),
        cursor_on_row(toggled(t, cat).0, cat),
        cursor_on_row(synced(t, cat, option), cat),
{
    lemma_expands_keep_cursor(t, cat, g);
    lemma_collapses_keep_cursor(t, cat, g);
    lemma_selects_keep_cursor(t, cat, index);
    let rows = rows_of(cat, t.collapsed_groups);
    assert(cat.option_groups.len() == cat.option_groups@.len());
    lemma_tree_rows_bounds(cat.groups@, cat.option_groups@, t.collapsed_groups);
    if t.selected_row < rows.len() {
        match rows[t.selected_row as int] {
            ThemeTreeRow::Group { group, collapsed: c } => {
                let j = choose|j: int| 0 <= j < cat.groups@.len() && cat.groups@[j] == group;
                assert(cat.groups@[j] < 32);
                lemma_expands_keep_cursor(t, cat, group);
                lemma_collapses_keep_cursor(t, cat, group);
                lemma_first_match_found(rows, RowQuery::GroupTheme(group), cat.option_groups@, 0);
            },
            ThemeTreeRow::Theme { option_index, .. } => {
                let og = cat.option_groups@[option_index as int];
                assert(og < 32);
                lemma_collapses_keep_cursor(t, cat, og);
                lemma_selects_keep_cursor(t, cat, option_index);
            },
        }
    }
    let t0 = ThemeTree { theme_index: option, ..t };
    let og = cat.option_groups@[option as int];
    assert(og < 32);
    lemma_expands_keep_cursor(t0, cat, og);
    let t1 = expanded(t0, cat, og);
    lemma_first_match_found(
        rows_of(cat, t1.collapsed_groups),
        RowQuery::Option(option),
        cat.option_groups@,
        0,
    );
}

proof fn lemma_expands_keep_cursor(t: ThemeTree, cat: ThemeCatalog, g: u8)
    requires
        cat.wf(),
        cursor_on_row(t, cat),
        g < 32,
    ensures
        cursor_on_row(expanded(t, cat, g), cat),
{
    lemma_expand_rows_grow(cat.groups@, cat.option_groups@, t.collapsed_groups, g);
}

proof fn lemma_collapses_keep_cursor(t: ThemeTree, cat: ThemeCatalog, g: u8)
    requires
        cat.wf(),
        g < 32,
    ensures
        cursor_on_row(collapsed(t, cat, g), cat),
{
    let mask = t.collapsed_groups | (1u32 << g);
    lemma_first_match_found(rows_of(cat, mask), RowQuery::Heading(g), cat.option_groups@, 0);
}

proof fn lemma_selects_keep_cursor(t: ThemeTree, cat: ThemeCatalog, index: usize)
    requires
        cat.wf(),
        cursor_on_row(t, cat),
    ensures
        cat.option_groups@.len() > 0 ==> cursor_on_row(selected_index(t, cat, index).0, cat),
{
    if cat.option_groups@.len() > 0 {
        let last = sat_dec(cat.option_groups@.len() as int);
        let clamped = (if (index as int) < last {
            index as int
        } else {
            last
        }) as usize;
        let og = cat.option_groups@[clamped as int];
        assert(og < 32);
        lemma_expands_keep_cursor(t, cat, og);
        let t1 = expanded(t, cat, og);
        lemma_first_match_found(
            rows_of(cat, t1.collapsed_groups),
            RowQuery::Option(clamped),
            cat.option_groups@,
            0,
        );
    }
}

} // verus!
