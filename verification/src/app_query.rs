//! Which rows the table shows, and which one is selected.

use vstd::prelude::*;
use vstd::string::*;
use crate::app_state::{
    indices_valid, App, RowKey, SortedRowIndices, FILTER_TEXT_MAX_BYTES,
};
use crate::config::SortMode;
use crate::ports::PortEntry;
use crate::text::{
    char_utf8_len, lemma_utf8_drop_last, lemma_utf8_push, pop_char, push_char, text_len, utf8_len,
};

verus! {

/// The rows that a query found, in order.
#[derive(Debug)]
pub struct QueryResult {
    pub indices: Vec<usize>,
    /// Some term of the query leaves rows out.
    pub explicit_filter_active: bool,
}

/// A query answers whatever it is asked, only with rows that exist. Asked for everything
/// it always finds every row.
pub open spec fn answers<Q>(query: Q) -> bool where
    Q: Fn(&Vec<PortEntry>, Option<&Vec<usize>>, &String, SortMode, bool) -> Result<
        QueryResult,
        String,
    >,
 {
    &&& forall|
        rows: &Vec<PortEntry>,
        order: Option<&Vec<usize>>,
        text: &String,
        sort: SortMode,
        hide: bool,
    |
        order is Some ==> indices_valid(order->0@, rows@.len()) ==> #[trigger] call_requires(
            query,
            (rows, order, text, sort, hide),
        )
    &&& forall|rows: &Vec<PortEntry>, text: &String, sort: SortMode, hide: bool| #[trigger]
        call_requires(query, (rows, None::<&Vec<usize>>, text, sort, hide))
    &&& forall|
        rows: &Vec<PortEntry>,
        order: Option<&Vec<usize>>,
        text: &String,
        sort: SortMode,
        hide: bool,
        result: Result<QueryResult, String>,
    | #[trigger]
        call_ensures(query, (rows, order, text, sort, hide), result) ==> {
            &&& result is Ok ==> indices_valid(result->Ok_0.indices@, rows@.len())
            &&& text@.len() == 0 && !hide ==> result is Ok && result->Ok_0.indices.len()
                == rows.len()
        }
}

/// The first shown position from `from` on whose row is marked.
pub open spec fn first_marked(visible: Seq<usize>, mask: Seq<bool>, from: int) -> Option<int>
    decreases visible.len() - from,
{
    if from < 0 || from >= visible.len() {
        None
    } else if visible[from] < mask.len() && mask[visible[from] as int] {
        Some(from)
    } else {
        first_marked(visible, mask, from + 1)
    }
}

/// The selection after rows changed: the first shown row that is the selected one, else
/// the old position, as far as there are rows.
pub open spec fn selection_kept(
    visible: Seq<usize>,
    mask: Option<Seq<bool>>,
    fallback: int,
) -> Option<int> {
    if visible.len() == 0 {
        None
    } else {
        let found = match mask {
            Some(mask) => first_marked(visible, mask, 0),
            None => None,
        };
        match found {
            Some(position) => Some(position),
            None => Some(
                if fallback < visible.len() {
                    fallback
                } else {
                    visible.len() - 1
                },
            ),
        }
    }
}

/// Where the selection goes after the shown rows changed. `selected_source_rows` marks
/// the rows that are the selected one.
pub fn preserved_selection(
    visible: &Vec<usize>,
    selected_source_rows: Option<&Vec<bool>>,
    fallback_index: usize,
) -> (r: Option<usize>)
    ensures
        match r {
            Some(position) => selection_kept(
                visible@,
                match selected_source_rows {
                    Some(mask) => Some(mask@),
                    None => None,
                },
                fallback_index as int,
            ) == Some(position as int) && position < visible.len(),
            None => visible.len() == 0,
        },
{
    if visible.len() == 0 {
        return None;
    }
    if let Some(mask) = selected_source_rows {
        let mut i: usize = 0;
        while i < visible.len()
            invariant
                i <= visible.len(),
                visible.len() > 0,
                selected_source_rows == Some(mask),
                first_marked(visible@, mask@, 0) == first_marked(visible@, mask@, i as int),
            decreases visible.len() - i,
        {
            if visible[i] < mask.len() && mask[visible[i]] {
                return Some(i);
            }
            i = i + 1;
        }
    }
    if fallback_index < visible.len() {
        Some(fallback_index)
    } else {
        Some(visible.len() - 1)
    }
}

/// Which rows have a key.
pub open spec fn key_mask(rows: Seq<PortEntry>, key: RowKey) -> Seq<bool> {
    rows.map_values(|row: PortEntry| RowKey::of(row) == key)
}

fn mark_key(rows: &Vec<PortEntry>, key: RowKey) -> (r: Vec<bool>)
    ensures
        r@ == key_mask(rows@, key),
{
    let mut mask: Vec<bool> = Vec::new();
    let mut i: usize = 0;
    while i < rows.len()
        invariant
            i <= rows.len(),
            mask.len() == i,
            forall|j: int| 0 <= j < i ==> mask@[j] == (RowKey::of(#[trigger] rows@[j]) == key),
        decreases rows.len() - i,
    {
        mask.push(RowKey::from_row(&rows[i]) == key);
        i = i + 1;
    }
    assert(mask@ =~= key_mask(rows@, key));
    mask
}

fn copy_indices(indices: &Vec<usize>) -> (r: Vec<usize>)
    ensures
        r@ == indices@,
{
    let mut out: Vec<usize> = Vec::new();
    let mut i: usize = 0;
    while i < indices.len()
        invariant
            i <= indices.len(),
            out@ == indices@.take(i as int),
        decreases indices.len() - i,
    {
        out.push(indices[i]);
        assert(indices@.take(i + 1) =~= indices@.take(i as int).push(indices@[i as int]));
        i = i + 1;
    }
    assert(indices@.take(i as int) =~= indices@);
    out
}

/// The remembered order of the rows serves the present way of ordering them.
pub open spec fn order_known(app: App) -> bool {
    &&& app.sorted_row_indices is Some
    &&& app.sorted_row_indices->0.sort_mode == app.sort_mode
    &&& app.sorted_row_indices->0.indices.len() == app.rows.len()
}

/// The order that a query is given.
pub open spec fn order_given<'a>(app: App) -> Option<&'a Vec<usize>> {
    if order_known(app) {
        Some(&app.sorted_row_indices->0.indices)
    } else {
        None
    }
}

/// What a query's answer makes of the table.
pub open spec fn shows(
    before: App,
    key: Option<RowKey>,
    fallback: int,
    answer: Result<QueryResult, String>,
    after: App,
) -> bool {
    let visible = match answer {
        Ok(result) => result.indices@,
        Err(_) => Seq::empty(),
    };
    let mask = match key {
        Some(key) => Some(key_mask(before.rows@, key)),
        None => None,
    };
    &&& after == (App {
        visible_row_indices: after.visible_row_indices,
        sorted_row_indices: after.sorted_row_indices,
        filter_error: after.filter_error,
        selected_index: after.selected_index,
        ..before
    })
    &&& after.visible_row_indices@ == visible
    &&& match after.selected_index {
        Some(position) => selection_kept(visible, mask, fallback) == Some(position as int)
            && position < visible.len(),
        None => visible.len() == 0,
    }
    &&& match answer {
        Ok(result) => {
            &&& after.filter_error is None
            &&& if result.explicit_filter_active || before.hide_system_processes {
                after.sorted_row_indices == before.sorted_row_indices
            } else {
                &&& after.sorted_row_indices is Some
                &&& after.sorted_row_indices->0.sort_mode == before.sort_mode
                &&& after.sorted_row_indices->0.indices@ == result.indices@
            }
        },
        Err(error) => {
            &&& after.filter_error == Some(error)
            &&& after.sorted_row_indices == before.sorted_row_indices
        },
    }
}

/// The rows were queried again, and the selection kept where it could be.
pub open spec fn rebuilt<Q>(
    before: App,
    key: Option<RowKey>,
    fallback: int,
    query: Q,
    after: App,
) -> bool where
    Q: Fn(&Vec<PortEntry>, Option<&Vec<usize>>, &String, SortMode, bool) -> Result<
        QueryResult,
        String,
    >,
 {
    exists|answer: Result<QueryResult, String>| #[trigger]
        call_ensures(
            query,
            (
                &before.rows,
                order_given(before),
                &before.filter_text,
                before.sort_mode,
                before.hide_system_processes,
            ),
            answer,
        ) && shows(before, key, fallback, answer, after)
}

/// The position that a lost selection falls back to.
pub open spec fn fallback_of(app: App) -> int {
    match app.selected_index {
        Some(index) => index as int,
        None => 0,
    }
}

/// The remembered order was made good: by what was remembered, or by a query for all
/// rows.
pub open spec fn order_ensured<Q>(before: App, query: Q, after: App) -> bool where
    Q: Fn(&Vec<PortEntry>, Option<&Vec<usize>>, &String, SortMode, bool) -> Result<
        QueryResult,
        String,
    >,
 {
    if order_known(before) {
        after == before
    } else {
        &&& after == (App { sorted_row_indices: after.sorted_row_indices, ..before })
        &&& after.sorted_row_indices is Some
        &&& after.sorted_row_indices->0.sort_mode == before.sort_mode
        &&& exists|text: String, answer: Result<QueryResult, String>| #[trigger]
            call_ensures(
                query,
                (&before.rows, None::<&Vec<usize>>, &text, before.sort_mode, false),
                answer,
            ) && text@.len() == 0 && answer is Ok && after.sorted_row_indices->0.indices@
                == answer->Ok_0.indices@
    }
}

/// A change of the search text: the order is made good, the text changed, and the rows
/// queried again.
pub open spec fn search_changed<Q>(before: App, text: Seq<char>, query: Q, after: App) -> bool where
    Q: Fn(&Vec<PortEntry>, Option<&Vec<usize>>, &String, SortMode, bool) -> Result<
        QueryResult,
        String,
    >,
 {
    exists|ordered: App, edited: App| #[trigger]
        order_ensured(before, query, ordered) && edited == (App {
            filter_text: edited.filter_text,
            ..ordered
        }) && edited.filter_text@ == text && #[trigger] rebuilt(
            edited,
            edited.key_selected(),
            fallback_of(edited),
            query,
            after,
        )
}

impl App {
    /// Query the rows again. The selection stays on the row with `selected_key`, or
    /// near `fallback_index`.
    pub fn rebuild_visible_rows_preserving<Q>(
        &mut self,
        selected_key: Option<RowKey>,
        fallback_index: usize,
        query: &Q,
    ) where
        Q: Fn(&Vec<PortEntry>, Option<&Vec<usize>>, &String, SortMode, bool) -> Result<
            QueryResult,
            String,
        >,

        requires
            answers(*query),
            old(self).sorted_row_indices is Some ==> indices_valid(
                old(self).sorted_row_indices->0.indices@,
                old(self).rows@.len(),
            ),
            utf8_len(old(self).filter_text@) <= FILTER_TEXT_MAX_BYTES,
            old(self).modal.bounded(),
        ensures
            rebuilt(*old(self), selected_key, fallback_index as int, *query, *final(self)),
            final(self).wf(),
    {
        let mask = match selected_key {
            Some(key) => Some(mark_key(&self.rows, key)),
            None => None,
        };
        let order = match &self.sorted_row_indices {
            Some(cached) => if cached.sort_mode == self.sort_mode && cached.indices.len()
                == self.rows.len() {
                Some(&cached.indices)
            } else {
                None
            },
            None => None,
        };
        assert(order == order_given(*self));
        let answer = query(
            &self.rows,
            order,
            &self.filter_text,
            self.sort_mode,
            self.hide_system_processes,
        );
        let ghost seen = answer;
        let ghost before = *self;
        assert(call_ensures(
            *query,
            (
                &before.rows,
                order_given(before),
                &before.filter_text,
                before.sort_mode,
                before.hide_system_processes,
            ),
            seen,
        ));
        match answer {
            Ok(result) => {
                if !result.explicit_filter_active && !self.hide_system_processes {
                    self.sorted_row_indices = Some(
                        SortedRowIndices {
                            sort_mode: self.sort_mode,
                            indices: copy_indices(&result.indices),
                        },
                    );
                }
                self.visible_row_indices = result.indices;
                self.filter_error = None;
            },
            Err(error) => {
                self.visible_row_indices = Vec::new();
                self.filter_error = Some(error);
            },
        }
        self.selected_index = match &mask {
            Some(mask) => preserved_selection(
                &self.visible_row_indices,
                Some(mask),
                fallback_index,
            ),
            None => preserved_selection(&self.visible_row_indices, None, fallback_index),
        };
        assert(shows(before, selected_key, fallback_index as int, seen, *self));
    }

    /// Query the rows again, and keep the selection where it can be kept.
    pub fn rebuild_visible_rows<Q>(&mut self, query: &Q) where
        Q: Fn(&Vec<PortEntry>, Option<&Vec<usize>>, &String, SortMode, bool) -> Result<
            QueryResult,
            String,
        >,

        requires
            answers(*query),
            old(self).wf(),
        ensures
            rebuilt(
                *old(self),
                old(self).key_selected(),
                fallback_of(*old(self)),
                *query,
                *final(self),
            ),
            final(self).wf(),
    {
        let key = self.selected_key();
        let fallback: usize = match self.selected_index {
            Some(index) => index,
            None => 0,
        };
        self.rebuild_visible_rows_preserving(key, fallback, query);
    }

    /// Make sure that an order of all rows is remembered.
    pub fn ensure_sorted_row_indices<Q>(&mut self, query: &Q) where
        Q: Fn(&Vec<PortEntry>, Option<&Vec<usize>>, &String, SortMode, bool) -> Result<
            QueryResult,
            String,
        >,

        requires
            answers(*query),
            old(self).wf(),
        ensures
            order_ensured(*old(self), *query, *final(self)),
            order_known(*final(self)),
            final(self).wf(),
    {
        let known: bool = match &self.sorted_row_indices {
            Some(cached) => cached.sort_mode == self.sort_mode && cached.indices.len()
                == self.rows.len(),
            None => false,
        };
        if known {
            return;
        }
        let everything = String::new();
        let answer = query(&self.rows, None, &everything, self.sort_mode, false);
        let ghost seen = answer;
        assert(call_ensures(
            *query,
            (&self.rows, None::<&Vec<usize>>, &everything, self.sort_mode, false),
            seen,
        ));
        if let Ok(result) = answer {
            self.sorted_row_indices = Some(
                SortedRowIndices { sort_mode: self.sort_mode, indices: result.indices },
            );
        }
        assert(order_ensured(*old(self), *query, *self));
    }

    /// Type a character into the search; one that does not fit is dropped.
    pub fn append_search_char<Q>(&mut self, ch: char, query: &Q) where
        Q: Fn(&Vec<PortEntry>, Option<&Vec<usize>>, &String, SortMode, bool) -> Result<
            QueryResult,
            String,
        >,

        requires
            answers(*query),
            old(self).wf(),
        ensures
            final(self).wf(),
            ({
                let text = old(self).filter_text@.push(ch);
                if old(self).search_mode && utf8_len(text) <= FILTER_TEXT_MAX_BYTES {
                    search_changed(*old(self), text, *query, *final(self))
                } else {
                    *final(self) == *old(self)
                }
            }),
    {
        if !self.search_mode {
            return;
        }
        proof {
            lemma_utf8_push(self.filter_text@, ch);
        }
        if text_len(self.filter_text.as_str()) + char_utf8_len(ch) > FILTER_TEXT_MAX_BYTES {
            return;
        }
        self.ensure_sorted_row_indices(query);
        let ghost ordered = *self;
        push_char(&mut self.filter_text, ch);
        let ghost edited = *self;
        self.rebuild_visible_rows(query);
        assert(order_ensured(*old(self), *query, ordered));
        assert(rebuilt(edited, edited.key_selected(), fallback_of(edited), *query, *self));
    }

    /// Take the last character of the search away.
    pub fn backspace_search<Q>(&mut self, query: &Q) where
        Q: Fn(&Vec<PortEntry>, Option<&Vec<usize>>, &String, SortMode, bool) -> Result<
            QueryResult,
            String,
        >,

        requires
            answers(*query),
            old(self).wf(),
        ensures
            final(self).wf(),
            if old(self).search_mode {
                search_changed(
                    *old(self),
                    if old(self).filter_text@.len() == 0 {
                        old(self).filter_text@
                    } else {
                        old(self).filter_text@.drop_last()
                    },
                    *query,
                    *final(self),
                )
            } else {
                *final(self) == *old(self)
            },
    {
        if !self.search_mode {
            return;
        }
        self.ensure_sorted_row_indices(query);
        let ghost ordered = *self;
        proof {
            if self.filter_text@.len() > 0 {
                lemma_utf8_drop_last(self.filter_text@);
            }
        }
        let _ = pop_char(&mut self.filter_text);
        let ghost edited = *self;
        self.rebuild_visible_rows(query);
        assert(order_ensured(*old(self), *query, ordered));
        assert(rebuilt(edited, edited.key_selected(), fallback_of(edited), *query, *self));
    }

    /// Leave the search and show every row again.
    pub fn cancel_search<Q>(&mut self, query: &Q) where
        Q: Fn(&Vec<PortEntry>, Option<&Vec<usize>>, &String, SortMode, bool) -> Result<
            QueryResult,
            String,
        >,

        requires
            answers(*query),
            old(self).wf(),
        ensures
            final(self).wf(),
            ({
                let left = App { search_mode: false, ..*old(self) };
                if old(self).filter_text@.len() > 0 {
                    search_changed(left, Seq::empty(), *query, *final(self))
                } else {
                    *final(self) == left
                }
            }),
    {
        self.search_mode = false;
        let ghost left = *self;
        if self.filter_text.as_str().unicode_len() > 0 {
            self.ensure_sorted_row_indices(query);
            let ghost ordered = *self;
            self.filter_text = String::new();
            let ghost edited = *self;
            self.rebuild_visible_rows(query);
            assert(order_ensured(left, *query, ordered));
            assert(edited.filter_text@ =~= Seq::empty());
            assert(rebuilt(edited, edited.key_selected(), fallback_of(edited), *query, *self));
        }
    }

    /// Order the rows the next way.
    pub fn cycle_sort<Q>(&mut self, query: &Q) where
        Q: Fn(&Vec<PortEntry>, Option<&Vec<usize>>, &String, SortMode, bool) -> Result<
            QueryResult,
            String,
        >,

        requires
            answers(*query),
            old(self).wf(),
        ensures
            final(self).wf(),
            ({
                let next = App { sort_mode: old(self).sort_mode.following(), ..*old(self) };
                rebuilt(next, next.key_selected(), fallback_of(next), *query, *final(self))
            }),
    {
        self.sort_mode = self.sort_mode.next();
        self.rebuild_visible_rows(query);
    }

    /// The table with the row below selected, as far as there is one.
    pub open spec fn moved_down(self) -> App {
        App {
            selected_index: match self.selected_index {
                Some(index) => Some(
                    if index + 1 < self.visible_row_indices.len() {
                        (index + 1) as usize
                    } else {
                        (self.visible_row_indices.len() - 1) as usize
                    },
                ),
                None => None,
            },
            ..self
        }
    }

    /// The table with the row above selected, as far as there is one.
    pub open spec fn moved_up(self) -> App {
        App {
            selected_index: match self.selected_index {
                Some(index) => Some(
                    if index > 0 {
                        (index - 1) as usize
                    } else {
                        0
                    },
                ),
                None => None,
            },
            ..self
        }
    }

    /// Select the row below.
    pub fn select_next(&mut self)
        requires
            old(self).wf(),
        ensures
            *final(self) == old(self).moved_down(),
            final(self).wf(),
    {
        if let Some(index) = self.selected_index {
            if index + 1 < self.visible_row_indices.len() {
                self.selected_index = Some(index + 1);
            } else {
                self.selected_index = Some(self.visible_row_indices.len() - 1);
            }
        }
    }

    /// Select the row above.
    pub fn select_previous(&mut self)
        requires
            old(self).wf(),
        ensures
            *final(self) == old(self).moved_up(),
            final(self).wf(),
    {
        if let Some(index) = self.selected_index {
            if index > 0 {
                self.selected_index = Some(index - 1);
            }
        }
    }
}

/// A selected row that a query still shows stays selected.
pub proof fn law_selection_stays_on_its_row(
    before: App,
    key: RowKey,
    fallback: int,
    answer: Result<QueryResult, String>,
    after: App,
    position: int,
)
    requires
        shows(before, Some(key), fallback, answer, after),
        indices_valid(after.visible_row_indices@, before.rows@.len()),
        0 <= position < after.visible_row_indices.len(),
        RowKey::of(before.rows@[after.visible_row_indices@[position] as int]) == key,
    ensures
        after.key_selected() == Some(key),
{
    let visible = after.visible_row_indices@;
    let mask = key_mask(before.rows@, key);
    lemma_marked_found(visible, mask, 0, position);
}

proof fn lemma_marked_found(visible: Seq<usize>, mask: Seq<bool>, from: int, position: int)
    requires
        0 <= from <= position < visible.len(),
        visible[position] < mask.len(),
        mask[visible[position] as int],
    ensures
        ({
            let found = first_marked(visible, mask, from);
            &&& found is Some
            &&& from <= found->0 <= position
            &&& visible[found->0] < mask.len()
            &&& mask[visible[found->0] as int]
        }),
    decreases position - from,
{
    if !(visible[from] < mask.len() && mask[visible[from] as int]) {
        lemma_marked_found(visible, mask, from + 1, position);
    }
}

} // verus!
