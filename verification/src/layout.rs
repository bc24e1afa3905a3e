//! The result of laying a label out: the items as the container placed them,
//! gathered into rows, with the report of the label as a whole.

use crate::response::{empty_response, Flags, Rect, Response};
use vstd::prelude::*;

verus! {

/// A flow item and what the host reported of placing it.
#[derive(Copy, Debug, PartialEq, Eq, Structural)]
pub struct PlacedItem {
    /// The segment it stands for, by its place among the segments.
    pub segment: usize,
    /// The host's report; its `rect` is where the item stands.
    pub response: Response,
}

impl Clone for PlacedItem {
    fn clone(&self) -> (copy: Self)
        ensures
            copy == *self,
    {
        *self
    }
}

/// Items that stand side by side, and the band they take.
#[derive(Debug, PartialEq, Eq)]
pub struct Row {
    pub items: Vec<PlacedItem>,
    /// The smallest rectangle that holds the items.
    pub rect: Rect,
}

/// What a row is.
pub struct RowView {
    pub items: Seq<PlacedItem>,
    pub rect: Rect,
}

impl View for Row {
    type V = RowView;

    open spec fn view(&self) -> RowView {
        RowView { items: self.items@, rect: self.rect }
    }
}

/// The rows of a label from top to bottom, and the report of the label.
#[derive(Debug, PartialEq, Eq)]
pub struct LayoutResult {
    rows: Vec<Row>,
    response: Response,
}

/// What a layout result is.
pub struct LayoutView {
    pub rows: Seq<RowView>,
    pub response: Response,
}

/// The views of a sequence of rows.
pub open spec fn row_views(rows: Seq<Row>) -> Seq<RowView> {
    rows.map_values(|row: Row| row@)
}

impl View for LayoutResult {
    type V = LayoutView;

    closed spec fn view(&self) -> LayoutView {
        LayoutView { rows: row_views(self.rows@), response: self.response }
    }
}

/// The items of all rows, in order.
pub open spec fn all_items(rows: Seq<RowView>) -> Seq<PlacedItem> {
    rows.map_values(|row: RowView| row.items).flatten()
}

/// Whether an item stands in a row: whether it begins above the row's lower
/// edge.
pub open spec fn joins(row: RowView, item: PlacedItem) -> bool {
    item.response.rect.min.y < row.rect.max.y
}

/// The rows after one more item: it joins the last row, or begins a new one.
pub open spec fn place_in_rows(rows: Seq<RowView>, item: PlacedItem) -> Seq<RowView> {
    if rows.len() > 0 && joins(rows.last(), item) {
        rows.drop_last().push(
            RowView {
                items: rows.last().items.push(item),
                rect: rows.last().rect.union(item.response.rect),
            },
        )
    } else {
        rows.push(RowView { items: Seq::empty().push(item), rect: item.response.rect })
    }
}

/// The report of a label after one more item. The first item gives the label
/// its area; every further item widens it.
pub open spec fn combine(first: bool, so_far: Response, item: Response) -> Response {
    if first {
        Response {
            rect: item.rect,
            interact_rect: item.interact_rect,
            ..so_far.union(item)
        }
    } else {
        so_far.union(item)
    }
}

/// The layout after one more item.
pub open spec fn placed(layout: LayoutView, item: PlacedItem) -> LayoutView {
    LayoutView {
        rows: place_in_rows(layout.rows, item),
        response: combine(layout.rows.len() == 0, layout.response, item.response),
    }
}

/// The layout of no item.
pub open spec fn no_layout() -> LayoutView {
    LayoutView { rows: Seq::empty(), response: empty_response() }
}

/// The layout of items placed one after the other.
pub open spec fn laid_out(items: Seq<PlacedItem>) -> LayoutView
    decreases items.len(),
{
    if items.len() == 0 {
        no_layout()
    } else {
        placed(laid_out(items.drop_last()), items.last())
    }
}

/// Whether a layout is the layout of the items in its rows.
pub open spec fn well_formed(layout: LayoutView) -> bool {
    layout == laid_out(all_items(layout.rows))
}

/// Whether `rect` is the smallest rectangle that holds every one of `rects`.
pub open spec fn bounds(rect: Rect, rects: Seq<Rect>) -> bool {
    &&& forall|i: int| 0 <= i < rects.len() ==> rect.covers(#[trigger] rects[i])
    &&& forall|other: Rect|
        (forall|i: int| 0 <= i < rects.len() ==> other.covers(#[trigger] rects[i]))
            ==> #[trigger] other.covers(rect)
}

/// Where each item stands.
pub open spec fn item_rects(items: Seq<PlacedItem>) -> Seq<Rect> {
    items.map_values(|item: PlacedItem| item.response.rect)
}

/// Where each item senses the pointer.
pub open spec fn item_interact_rects(items: Seq<PlacedItem>) -> Seq<Rect> {
    items.map_values(|item: PlacedItem| item.response.interact_rect)
}

/// What happened to each item.
pub open spec fn item_flags(items: Seq<PlacedItem>) -> Seq<Flags> {
    items.map_values(|item: PlacedItem| item.response.flags)
}

/// Whether every flag of `part` is a flag of `whole`.
#[verifier::opaque]
pub open spec fn includes(whole: Flags, part: Flags) -> bool {
    &&& part.enabled ==> whole.enabled
    &&& part.contains_pointer ==> whole.contains_pointer
    &&& part.hovered ==> whole.hovered
    &&& part.highlighted ==> whole.highlighted
    &&& part.clicked ==> whole.clicked
    &&& part.fake_primary_clicked ==> whole.fake_primary_clicked
    &&& part.long_touched ==> whole.long_touched
    &&& part.drag_started ==> whole.drag_started
    &&& part.dragged ==> whole.dragged
    &&& part.drag_stopped ==> whole.drag_stopped
    &&& part.is_pointer_button_down_on ==> whole.is_pointer_button_down_on
    &&& part.changed ==> whole.changed
    &&& part.close ==> whole.close
}

/// Joined flags include both parts, and are included in whatever includes both.
pub proof fn lemma_flags_union_least(a: Flags, b: Flags, other: Flags)
    ensures
        includes(a.union(b), a),
        includes(a.union(b), b),
        includes(other, a) && includes(other, b) ==> includes(other, a.union(b)),
        includes(other, Flags::empty()),
{
    reveal(includes);
}

/// Whether `flags` holds what any of `parts` holds and nothing else.
pub open spec fn gathers(flags: Flags, parts: Seq<Flags>) -> bool {
    &&& forall|i: int| 0 <= i < parts.len() ==> includes(flags, #[trigger] parts[i])
    &&& forall|other: Flags|
        (forall|i: int| 0 <= i < parts.len() ==> includes(other, #[trigger] parts[i]))
            ==> #[trigger] includes(other, flags)
}

/// One more item keeps the items placed before it, in their order, and
/// stands behind them.
pub proof fn lemma_place_keeps_order(rows: Seq<RowView>, item: PlacedItem)
    ensures
        all_items(place_in_rows(rows, item)) == all_items(rows).push(item),
{
    broadcast use Seq::lemma_flatten_push;

    let lists = rows.map_values(|row: RowView| row.items);
    let after = place_in_rows(rows, item).map_values(|row: RowView| row.items);
    if rows.len() > 0 && joins(rows.last(), item) {
        let before = rows.drop_last().map_values(|row: RowView| row.items);
        assert(lists =~= before.push(rows.last().items));
        assert(after =~= before.push(rows.last().items.push(item)));
        assert(before.flatten() + rows.last().items.push(item) =~= (before.flatten()
            + rows.last().items).push(item));
    } else {
        assert(after =~= lists.push(Seq::empty().push(item)));
        assert(lists.flatten() + Seq::empty().push(item) =~= lists.flatten().push(item));
    }
}

/// One more item keeps a layout well formed.
pub proof fn lemma_placed_well_formed(layout: LayoutView, item: PlacedItem)
    requires
        well_formed(layout),
    ensures
        well_formed(placed(layout, item)),
{
    let items = all_items(layout.rows);
    lemma_place_keeps_order(layout.rows, item);
    assert(items.push(item).drop_last() =~= items);
}

/// Stable order: the rows of a layout hold the items that were placed, in the
/// order in which they were placed, and no row is empty.
pub proof fn lemma_laid_out_order(items: Seq<PlacedItem>)
    ensures
        all_items(laid_out(items).rows) == items,
        well_formed(laid_out(items)),
        (laid_out(items).rows.len() == 0) == (items.len() == 0),
        forall|r: int|
            0 <= r < laid_out(items).rows.len() ==> (#[trigger] laid_out(items).rows[r]).items.len()
                > 0,
    decreases items.len(),
{
    if items.len() == 0 {
        assert(no_layout().rows.map_values(|row: RowView| row.items) =~= Seq::empty());
    } else {
        let before = laid_out(items.drop_last());
        lemma_laid_out_order(items.drop_last());
        lemma_place_keeps_order(before.rows, items.last());
        assert(items.drop_last().push(items.last()) =~= items);
        let after = laid_out(items);
        assert forall|r: int| 0 <= r < after.rows.len() implies (#[trigger] after.rows[r]).items.len()
            > 0 by {
            if r < before.rows.len() - 1 {
                assert(after.rows[r] == before.rows[r]);
            } else if r == before.rows.len() - 1 && after.rows.len() > before.rows.len() {
                assert(after.rows[r] == before.rows[r]);
            }
        }
    }
}

impl LayoutResult {
    /// The layout of a label of which nothing has been placed yet.
    pub fn new() -> (layout: Self)
        ensures
            layout@ == no_layout(),
            well_formed(layout@),
    {
        let layout = LayoutResult { rows: Vec::new(), response: empty_response() };
        proof {
            assert(row_views(layout.rows@) =~= Seq::empty());
            lemma_laid_out_order(Seq::empty());
        }
        layout
    }

    /// Takes in an item that the container has placed.
    ///
    /// The item joins the last row if it begins above that row's lower edge,
    /// and the row's band grows to hold it; else it begins a new row. The
    /// label's report takes the item's report in.
    pub fn place(&mut self, item: PlacedItem)
        ensures
            final(self)@ == placed(old(self)@, item),
            well_formed(old(self)@) ==> well_formed(final(self)@),
    {
        let ghost before = self@;
        let first = self.rows.len() == 0;
        let mut joined = false;
        if !first {
            let last = self.rows.len() - 1;
            if item.response.rect.min.y < self.rows[last].rect.max.y {
                joined = true;
            }
        }
        if joined {
            let mut row = self.rows.pop().unwrap();
            row.items.push(item);
            row.rect = row.rect.union(item.response.rect);
            self.rows.push(row);
        } else {
            let mut items: Vec<PlacedItem> = Vec::new();
            items.push(item);
            self.rows.push(Row { items, rect: item.response.rect });
        }
        let both = self.response.union(item.response);
        if first {
            self.response = Response {
                rect: item.response.rect,
                interact_rect: item.response.interact_rect,
                sense: both.sense,
                flags: both.flags,
                interact_pointer_pos: both.interact_pointer_pos,
            };
        } else {
            self.response = both;
        }
        proof {
            assert(row_views(self.rows@) =~= place_in_rows(before.rows, item));
            if well_formed(before) {
                lemma_placed_well_formed(before, item);
            }
        }
    }

    /// The rows, from top to bottom.
    pub fn rows(&self) -> (rows: &Vec<Row>)
        ensures
            row_views(rows@) == self@.rows,
    {
        &self.rows
    }

    /// The report of the label as a whole.
    pub fn response(&self) -> (response: Response)
        ensures
            response == self@.response,
    {
        self.response
    }
}

/// Gathers the items that the container has placed, in the order in which it
/// placed them, into rows and into the report of the label.
pub fn layout(items: &Vec<PlacedItem>) -> (result: LayoutResult)
    ensures
        result@ == laid_out(items@),
        well_formed(result@),
        all_items(result@.rows) == items@,
{
    let mut result = LayoutResult::new();
    let mut i: usize = 0;
    while i < items.len()
        invariant
            i <= items@.len(),
            result@ == laid_out(items@.take(i as int)),
        decreases items@.len() - i,
    {
        proof {
            assert(items@.take(i + 1).drop_last() =~= items@.take(i as int));
        }
        result.place(items[i]);
        i += 1;
    }
    proof {
        assert(items@.take(items@.len() as int) =~= items@);
        lemma_laid_out_order(items@);
    }
    result
}

/// A rectangle is the smallest that holds itself.
proof fn lemma_bounds_one(rect: Rect)
    ensures
        bounds(rect, Seq::empty().push(rect)),
{
    let rects = Seq::<Rect>::empty().push(rect);
    assert forall|other: Rect|
        (forall|i: int| 0 <= i < rects.len() ==> other.covers(#[trigger] rects[i]))
        implies #[trigger] other.covers(rect) by {
        assert(rects[0] == rect);
    }
}

/// The smallest rectangle that holds some rectangles, joined with one more, is
/// the smallest that holds them and the one more.
proof fn lemma_bounds_grow(rect: Rect, rects: Seq<Rect>, more: Rect)
    requires
        bounds(rect, rects),
    ensures
        bounds(rect.union(more), rects.push(more)),
{
    let all = rects.push(more);
    let both = rect.union(more);
    assert forall|i: int| 0 <= i < all.len() implies both.covers(#[trigger] all[i]) by {
        if i < rects.len() {
            assert(rect.covers(rects[i]));
        }
    }
    assert forall|other: Rect|
        (forall|i: int| 0 <= i < all.len() ==> other.covers(#[trigger] all[i]))
        implies #[trigger] other.covers(both) by {
        assert forall|i: int| 0 <= i < rects.len() implies other.covers(#[trigger] rects[i]) by {
            assert(all[i] == rects[i]);
        }
        assert(other.covers(rect));
        assert(other.covers(all[rects.len() as int]));
    }
}

/// What includes flags includes what they include.
proof fn lemma_includes_transitive(a: Flags, b: Flags, c: Flags)
    requires
        includes(a, b),
        includes(b, c),
    ensures
        includes(a, c),
{
    reveal(includes);
}

/// Flags gathered from some parts, joined with one more, are the flags
/// gathered from them and the one more.
proof fn lemma_gathers_grow(flags: Flags, parts: Seq<Flags>, more: Flags)
    requires
        gathers(flags, parts),
    ensures
        gathers(flags.union(more), parts.push(more)),
{
    let all = parts.push(more);
    let both = flags.union(more);
    assert forall|i: int| 0 <= i < all.len() implies includes(both, #[trigger] all[i]) by {
        lemma_flags_union_least(flags, more, both);
        if i < parts.len() {
            assert(includes(flags, parts[i]));
            lemma_flags_union_least(flags, parts[i], both);
            lemma_includes_transitive(both, flags, parts[i]);
        }
    }
    assert forall|other: Flags|
        (forall|i: int| 0 <= i < all.len() ==> includes(other, #[trigger] all[i]))
        implies #[trigger] includes(other, both) by {
        assert forall|i: int| 0 <= i < parts.len() implies includes(other, #[trigger] parts[i]) by {
            assert(all[i] == parts[i]);
        }
        assert(includes(other, flags));
        assert(includes(other, all[parts.len() as int]));
        lemma_flags_union_least(flags, more, other);
    }
}

/// Aggregate report: the area of a label is the smallest rectangle that holds
/// where its items stand, its sensing area the smallest that holds where they
/// sense, and its flags are what happened to any of them. A label without
/// items has the report of nothing.
pub proof fn lemma_laid_out_response(items: Seq<PlacedItem>)
    ensures
        items.len() == 0 ==> laid_out(items).response == empty_response(),
        items.len() > 0 ==> bounds(laid_out(items).response.rect, item_rects(items)),
        items.len() > 0 ==> bounds(
            laid_out(items).response.interact_rect,
            item_interact_rects(items),
        ),
        gathers(laid_out(items).response.flags, item_flags(items)),
    decreases items.len(),
{
    if items.len() == 0 {
        assert forall|other: Flags| #[trigger] includes(other, Flags::empty()) by {
            lemma_flags_union_least(other, other, other);
        }
    } else {
        let before = items.drop_last();
        let item = items.last();
        lemma_laid_out_response(before);
        lemma_laid_out_order(before);
        assert(item_rects(items) =~= item_rects(before).push(item.response.rect));
        assert(item_interact_rects(items) =~= item_interact_rects(before).push(
            item.response.interact_rect,
        ));
        assert(item_flags(items) =~= item_flags(before).push(item.response.flags));
        lemma_gathers_grow(
            laid_out(before).response.flags,
            item_flags(before),
            item.response.flags,
        );
        if before.len() == 0 {
            lemma_bounds_one(item.response.rect);
            lemma_bounds_one(item.response.interact_rect);
            assert(item_rects(before) =~= Seq::empty());
            assert(item_interact_rects(before) =~= Seq::empty());
        } else {
            lemma_bounds_grow(
                laid_out(before).response.rect,
                item_rects(before),
                item.response.rect,
            );
            lemma_bounds_grow(
                laid_out(before).response.interact_rect,
                item_interact_rects(before),
                item.response.interact_rect,
            );
        }
    }
}

/// Row bands: the band of every row is the smallest rectangle that holds where
/// the row's items stand. So a row is as high as its items need and no higher.
pub proof fn lemma_laid_out_rows(items: Seq<PlacedItem>)
    ensures
        forall|r: int|
            #![trigger laid_out(items).rows[r]]
            0 <= r < laid_out(items).rows.len() ==> bounds(
                laid_out(items).rows[r].rect,
                item_rects(laid_out(items).rows[r].items),
            ),
    decreases items.len(),
{
    if items.len() > 0 {
        let before = laid_out(items.drop_last());
        let item = items.last();
        let after = laid_out(items);
        lemma_laid_out_rows(items.drop_last());
        assert forall|r: int|
            #![trigger after.rows[r]]
            0 <= r < after.rows.len() implies bounds(
            after.rows[r].rect,
            item_rects(after.rows[r].items),
        ) by {
            let joined = before.rows.len() > 0 && joins(before.rows.last(), item);
            if r < after.rows.len() - 1 {
                assert(after.rows[r] == before.rows[r]);
            } else if joined {
                let last = before.rows.last();
                assert(last == before.rows[before.rows.len() - 1]);
                lemma_bounds_grow(last.rect, item_rects(last.items), item.response.rect);
                assert(item_rects(last.items.push(item)) =~= item_rects(last.items).push(
                    item.response.rect,
                ));
            } else {
                lemma_bounds_one(item.response.rect);
                assert(item_rects(Seq::empty().push(item)) =~= Seq::empty().push(
                    item.response.rect,
                ));
            }
        }
    }
}

/// Rows from top to bottom: every row but the first begins with an item that
/// stands at or below the lower edge of the row before it, and every other
/// item of a row begins above the lower edge that the row had when the item
/// came, which the row's band still holds.
pub proof fn lemma_laid_out_top_down(items: Seq<PlacedItem>)
    ensures
        forall|r: int|
            #![trigger laid_out(items).rows[r]]
            1 <= r < laid_out(items).rows.len() ==> laid_out(items).rows[r].items.len() > 0
                && laid_out(items).rows[r].items[0].response.rect.min.y >= laid_out(items).rows[r
                - 1].rect.max.y,
    decreases items.len(),
{
    if items.len() > 0 {
        let before = laid_out(items.drop_last());
        let item = items.last();
        let after = laid_out(items);
        lemma_laid_out_top_down(items.drop_last());
        lemma_laid_out_order(items.drop_last());
        assert forall|r: int|
            #![trigger after.rows[r]]
            1 <= r < after.rows.len() implies after.rows[r].items.len() > 0
            && after.rows[r].items[0].response.rect.min.y >= after.rows[r - 1].rect.max.y by {
            let joined = before.rows.len() > 0 && joins(before.rows.last(), item);
            if r < before.rows.len() - 1 {
                assert(after.rows[r] == before.rows[r]);
                assert(after.rows[r - 1] == before.rows[r - 1]);
            } else if r == before.rows.len() - 1 {
                assert(after.rows[r - 1] == before.rows[r - 1]);
                assert(before.rows[r].items.len() > 0);
                if joined {
                    assert(after.rows[r].items[0] == before.rows[r].items[0]);
                } else {
                    assert(after.rows[r] == before.rows[r]);
                }
            } else {
                assert(after.rows[r - 1] == before.rows[r - 1]);
            }
        }
    }
}

} // verus!
