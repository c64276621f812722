//! Which tool an invocation belongs to, between its start and its response.

use vstd::hash_map::StringHashMap;
use vstd::prelude::*;
use std::collections::VecDeque;

use crate::text::same_text;

verus! {

/// How many invocations are remembered, so that a response, which carries only the
/// invocation's identifier, can name its tool.
pub const WEBMCP_INFLIGHT_LIMIT: usize = 256;

/// The tool and the frame of an invocation, as characters.
pub type ToolView = (Seq<char>, Seq<char>);

/// A queue with an identifier taken out.
pub open spec fn without(order: Seq<Seq<char>>, id: Seq<char>) -> Seq<Seq<char>> {
    if order.contains(id) {
        order.remove(order.index_of(id))
    } else {
        order
    }
}

/// What a correlation table holds.
#[verifier::ext_equal]
pub struct InFlightView {
    /// The tool and the frame of each invocation that has not been answered.
    pub by_id: Map<Seq<char>, ToolView>,
    /// The identifiers of these invocations in the order in which they came, the oldest
    /// first.
    pub order: Seq<Seq<char>>,
}

impl InFlightView {
    /// A table that holds nothing.
    pub open spec fn empty() -> InFlightView {
        InFlightView { by_id: Map::empty(), order: Seq::empty() }
    }

    /// A table within its bound: the invocations that it can name are those that are
    /// queued, each once.
    pub open spec fn wf(self) -> bool {
        &&& self.order.len() <= WEBMCP_INFLIGHT_LIMIT
        &&& self.order.no_duplicates()
        &&& forall|id: Seq<char>| #[trigger]
            self.by_id.contains_key(id) <==> self.order.contains(id)
    }

    /// The table with its oldest invocation forgotten, where more are queued than the
    /// limit allows.
    pub open spec fn bounded(self) -> InFlightView {
        if self.order.len() > WEBMCP_INFLIGHT_LIMIT {
            InFlightView {
                by_id: self.by_id.remove(self.order.first()),
                order: self.order.drop_first(),
            }
        } else {
            self
        }
    }

    /// The table after an invocation has been seen. One that it can name already gets
    /// the new tool and keeps its place; any other goes to the end of the queue.
    pub open spec fn record(
        self,
        invocation: Seq<char>,
        tool: Seq<char>,
        frame: Seq<char>,
    ) -> InFlightView {
        InFlightView {
            by_id: self.by_id.insert(invocation, (tool, frame)),
            order: if self.by_id.contains_key(invocation) {
                self.order
            } else {
                self.order.push(invocation)
            },
        }.bounded()
    }

    /// The tool and the frame of an invocation, where the table can name them.
    pub open spec fn find(self, invocation: Seq<char>) -> Option<ToolView> {
        if self.by_id.contains_key(invocation) {
            Some(self.by_id[invocation])
        } else {
            None
        }
    }

    /// The table after an invocation has been answered.
    pub open spec fn taken(self, invocation: Seq<char>) -> InFlightView {
        InFlightView {
            by_id: self.by_id.remove(invocation),
            order: without(self.order, invocation),
        }
    }
}

/// Bounded table from the identifier of an invocation to its tool and frame. An entry
/// goes when the response arrives, or as the oldest when more invocations are under way
/// than the table remembers; a response to it then has no tool name.
pub struct InFlightTools {
    by_id: StringHashMap<(String, String)>,
    order: VecDeque<String>,
}

/// The characters of a tool and a frame.
pub open spec fn tool_view(tool: (String, String)) -> ToolView {
    (tool.0@, tool.1@)
}

impl View for InFlightTools {
    type V = InFlightView;

    closed spec fn view(&self) -> InFlightView {
        InFlightView {
            by_id: self.by_id@.map_values(|tool: (String, String)| tool_view(tool)),
            order: self.order@.map_values(|id: String| id@),
        }
    }
}

impl Default for InFlightTools {
    fn default() -> (table: Self)
        ensures
            table@ == InFlightView::empty(),
            table@.wf(),
    {
        let table = InFlightTools { by_id: StringHashMap::new(), order: VecDeque::new() };
        proof {
            assert(table@ =~= InFlightView::empty());
        }
        table
    }
}

impl InFlightTools {
    /// Remembers the tool and the frame of an invocation.
    pub fn record(&mut self, invocation: &str, tool: &str, frame: &str)
        requires
            old(self)@.wf(),
        ensures
            final(self)@ == old(self)@.record(invocation@, tool@, frame@),
            final(self)@.wf(),
    {
        let ghost before = self@;
        let known = self.by_id.contains_key(invocation);
        self.by_id.insert(invocation.to_owned(), (tool.to_owned(), frame.to_owned()));
        if !known {
            self.order.push_back(invocation.to_owned());
        }
        let ghost seen = InFlightView {
            by_id: before.by_id.insert(invocation@, (tool@, frame@)),
            order: if known {
                before.order
            } else {
                before.order.push(invocation@)
            },
        };
        proof {
            assert(known == before.by_id.contains_key(invocation@));
            assert(self@ =~= seen);
        }
        if self.order.len() > WEBMCP_INFLIGHT_LIMIT {
            if let Some(oldest) = self.order.pop_front() {
                self.by_id.remove(oldest.as_str());
                proof {
                    assert(self@ =~= seen.bounded());
                }
            }
        }
        proof {
            lemma_record_keeps_bound(before, invocation@, tool@, frame@);
        }
    }

    /// Gives the tool and the frame of an invocation, and forgets them.
    pub fn take(&mut self, invocation: &str) -> (tool: Option<(String, String)>)
        requires
            old(self)@.wf(),
        ensures
            tool.deep_view() == old(self)@.find(invocation@),
            final(self)@ == old(self)@.taken(invocation@),
            final(self)@.wf(),
    {
        let ghost before = self@;
        let tool = match self.by_id.get(invocation) {
            Some(found) => Some((found.0.clone(), found.1.clone())),
            None => None,
        };
        if tool.is_some() {
            self.by_id.remove(invocation);
            self.unqueue(invocation);
        }
        proof {
            lemma_take_keeps_bound(before, invocation@);
            assert(self@.by_id =~= before.by_id.remove(invocation@));
        }
        tool
    }

    /// Takes an identifier out of the queue.
    fn unqueue(&mut self, invocation: &str)
        requires
            old(self)@.order.no_duplicates(),
        ensures
            final(self)@.by_id == old(self)@.by_id,
            final(self)@.order == without(old(self)@.order, invocation@),
    {
        let ghost before = self@.order;
        let mut i: usize = 0;
        while i < self.order.len()
            invariant
                i <= self.order@.len(),
                self@ == old(self)@,
                self@.order == before,
                before == self.order@.map_values(|id: String| id@),
                before.no_duplicates(),
                forall|j: int| 0 <= j < i ==> #[trigger] before[j] != invocation@,
            decreases self.order@.len() - i,
        {
            if same_text(self.order[i].as_str(), invocation) {
                proof {
                    assert(before[i as int] == invocation@);
                    assert(before.index_of(invocation@) == i);
                }
                self.order.remove(i);
                proof {
                    assert(self@.order =~= before.remove(i as int));
                }
                return;
            }
            i += 1;
        }
    }

    /// How many invocations the table can name.
    pub fn len(&self) -> (n: usize)
        ensures
            n == self@.by_id.len(),
    {
        proof {
            assert(self@.by_id.dom() =~= self.by_id@.dom());
        }
        self.by_id.len()
    }

    /// How many identifiers are queued.
    pub fn queued(&self) -> (n: usize)
        ensures
            n == self@.order.len(),
    {
        self.order.len()
    }
}

/// Recording an invocation keeps a table within its bound.
pub proof fn lemma_record_keeps_bound(
    table: InFlightView,
    invocation: Seq<char>,
    tool: Seq<char>,
    frame: Seq<char>,
)
    requires
        table.wf(),
    ensures
        table.record(invocation, tool, frame).wf(),
{
    let after = table.record(invocation, tool, frame);
    if !table.by_id.contains_key(invocation) {
        let order = table.order.push(invocation);
        assert(order.no_duplicates()) by {
            assert(!table.order.contains(invocation));
        }
        assert forall|id: Seq<char>| order.contains(id) <==> (table.order.contains(id) || id
            == invocation) by {
            if table.order.contains(id) {
                assert(order[table.order.index_of(id)] == id);
            }
            assert(order[order.len() - 1] == invocation);
        }
        if order.len() > WEBMCP_INFLIGHT_LIMIT {
            lemma_without_oldest(order);
        }
    }
    assert(after.order.no_duplicates());
    assert forall|id: Seq<char>| #[trigger]
        after.by_id.contains_key(id) <==> after.order.contains(id) by {
        assert(table.by_id.contains_key(id) <==> table.order.contains(id));
    }
}

proof fn lemma_without_oldest(order: Seq<Seq<char>>)
    requires
        order.len() > 0,
        order.no_duplicates(),
    ensures
        order.drop_first().no_duplicates(),
        forall|id: Seq<char>| #[trigger]
            order.drop_first().contains(id) <==> order.contains(id) && id != order.first(),
{
    let rest = order.drop_first();
    assert forall|id: Seq<char>| #[trigger]
        rest.contains(id) <==> order.contains(id) && id != order.first() by {
        if rest.contains(id) {
            assert(order[rest.index_of(id) + 1] == id);
        }
        if order.contains(id) && id != order.first() {
            assert(rest[order.index_of(id) - 1] == id);
        }
    }
}

/// Taking an identifier out of a queue leaves the others.
proof fn lemma_without(order: Seq<Seq<char>>, id: Seq<char>)
    requires
        order.no_duplicates(),
    ensures
        without(order, id).no_duplicates(),
        forall|other: Seq<char>| #[trigger]
            without(order, id).contains(other) <==> order.contains(other) && other != id,
{
    if order.contains(id) {
        let place = order.index_of(id);
        let rest = order.remove(place);
        assert forall|other: Seq<char>| #[trigger]
            rest.contains(other) <==> order.contains(other) && other != id by {
            if rest.contains(other) {
                let i = rest.index_of(other);
                assert(order[if i < place {
                    i
                } else {
                    i + 1
                }] == other);
            }
            if order.contains(other) && other != id {
                let i = order.index_of(other);
                assert(rest[if i < place {
                    i
                } else {
                    i - 1
                }] == other);
            }
        }
    }
}

/// Answering an invocation keeps a table within its bound.
pub proof fn lemma_take_keeps_bound(table: InFlightView, invocation: Seq<char>)
    requires
        table.wf(),
    ensures
        table.taken(invocation).wf(),
{
    lemma_without(table.order, invocation);
    let after = table.taken(invocation);
    assert forall|id: Seq<char>| #[trigger]
        after.by_id.contains_key(id) <==> after.order.contains(id) by {
        assert(table.by_id.contains_key(id) <==> table.order.contains(id));
    }
}

/// One thing that happens to a table.
pub enum Happening {
    /// An invocation is seen, with its tool and frame.
    Record(Seq<char>, Seq<char>, Seq<char>),
    /// An invocation is answered.
    Take(Seq<char>),
}

impl Happening {
    /// The invocation that it is about.
    pub open spec fn invocation(self) -> Seq<char> {
        match self {
            Happening::Record(invocation, _, _) => invocation,
            Happening::Take(invocation) => invocation,
        }
    }
}

impl InFlightView {
    /// The table after one happening.
    pub open spec fn after(self, happening: Happening) -> InFlightView {
        match happening {
            Happening::Record(invocation, tool, frame) => self.record(invocation, tool, frame),
            Happening::Take(invocation) => self.taken(invocation),
        }
    }

    /// The table after several happenings, the first one first.
    pub open spec fn after_all(self, happenings: Seq<Happening>) -> InFlightView
        decreases happenings.len(),
    {
        if happenings.len() == 0 {
            self
        } else {
            self.after(happenings.first()).after_all(happenings.drop_first())
        }
    }
}

/// The invocations under way that came later than one that the table names, in the
/// order in which they came.
pub open spec fn later(table: InFlightView, invocation: Seq<char>) -> Seq<Seq<char>> {
    table.order.skip(table.order.index_of(invocation) + 1)
}

/// The invocations under way among those that were so before and those that are seen in
/// a happening.
pub open spec fn pending_after(pending: Seq<Seq<char>>, happening: Happening) -> Seq<Seq<char>> {
    match happening {
        Happening::Record(invocation, _, _) => if pending.contains(invocation) {
            pending
        } else {
            pending.push(invocation)
        },
        Happening::Take(invocation) => without(pending, invocation),
    }
}

/// Whether at no time as many invocations are under way as the table remembers, of those
/// that were so before and those that are seen in the happenings.
pub open spec fn never_crowded(pending: Seq<Seq<char>>, happenings: Seq<Happening>) -> bool
    decreases happenings.len(),
{
    &&& pending.len() < WEBMCP_INFLIGHT_LIMIT
    &&& happenings.len() > 0 ==> never_crowded(
        pending_after(pending, happenings.first()),
        happenings.drop_first(),
    )
}

/// Whatever happens, a table stays within its bound.
pub proof fn law_table_stays_bounded(table: InFlightView, happenings: Seq<Happening>)
    requires
        table.wf(),
    ensures
        table.after_all(happenings).wf(),
    decreases happenings.len(),
{
    if happenings.len() > 0 {
        match happenings.first() {
            Happening::Record(invocation, tool, frame) => {
                lemma_record_keeps_bound(table, invocation, tool, frame);
            },
            Happening::Take(invocation) => {
                lemma_take_keeps_bound(table, invocation);
            },
        }
        law_table_stays_bounded(table.after(happenings.first()), happenings.drop_first());
    }
}

/// A table names as many invocations as are queued, and never more than the limit.
pub proof fn law_table_is_capped(table: InFlightView)
    requires
        table.wf(),
    ensures
        table.by_id.dom().finite(),
        table.by_id.len() == table.order.len(),
        table.by_id.len() <= WEBMCP_INFLIGHT_LIMIT,
{
    vstd::seq_lib::seq_to_set_is_finite(table.order);
    table.order.unique_seq_to_set();
    assert forall|id: Seq<char>| table.by_id.dom().contains(id) <==> table.order.to_set().contains(
        id,
    ) by {
        assert(table.by_id.contains_key(id) <==> table.order.contains(id));
    }
    assert(table.by_id.dom() =~= table.order.to_set());
}

/// What was recorded last for an invocation is what a response to it finds, and a
/// second response finds nothing.
pub proof fn law_found_once(
    table: InFlightView,
    invocation: Seq<char>,
    tool: Seq<char>,
    frame: Seq<char>,
)
    requires
        table.wf(),
    ensures
        table.record(invocation, tool, frame).find(invocation) == Some((tool, frame)),
        table.record(invocation, tool, frame).taken(invocation).find(invocation) is None,
{
    if !table.by_id.contains_key(invocation) && table.order.len() > 0 {
        assert(table.order.push(invocation).first() == table.order[0]);
        assert(table.order.contains(table.order[0]));
    }
}

/// An invocation that the table cannot name becomes the newest when it is seen: none
/// under way came later.
pub proof fn law_a_new_invocation_is_the_newest(
    table: InFlightView,
    invocation: Seq<char>,
    tool: Seq<char>,
    frame: Seq<char>,
)
    requires
        table.wf(),
        table.find(invocation) is None,
    ensures
        table.record(invocation, tool, frame).order.last() == invocation,
        later(table.record(invocation, tool, frame), invocation) == Seq::<Seq<char>>::empty(),
{
    let after = table.record(invocation, tool, frame);
    lemma_record_keeps_bound(table, invocation, tool, frame);
    assert(after.order[after.order.len() - 1] == invocation);
    assert(after.order.index_of(invocation) == after.order.len() - 1);
    assert(later(after, invocation) =~= Seq::<Seq<char>>::empty());
}

/// Recording an invocation again replaces its tool and takes no second place in the
/// queue.
pub proof fn law_recording_again_takes_no_place(
    table: InFlightView,
    invocation: Seq<char>,
    tool: Seq<char>,
    frame: Seq<char>,
)
    requires
        table.wf(),
        table.find(invocation) is Some,
    ensures
        table.record(invocation, tool, frame).order == table.order,
        table.record(invocation, tool, frame).find(invocation) == Some((tool, frame)),
{
}

/// An invocation that is answered gives its place up: the table has room for one more.
pub proof fn law_an_answer_frees_a_place(table: InFlightView, invocation: Seq<char>)
    requires
        table.wf(),
        table.find(invocation) is Some,
    ensures
        table.taken(invocation).order.len() == table.order.len() - 1,
        !table.taken(invocation).order.contains(invocation),
{
    assert(table.by_id.contains_key(invocation));
    lemma_without(table.order, invocation);
}

/// What happens to one invocation changes what is found of another only by pushing it
/// out as the oldest: a new invocation is seen while the queue is full.
pub proof fn law_only_the_oldest_is_pushed_out(
    table: InFlightView,
    happening: Happening,
    other: Seq<char>,
)
    requires
        table.wf(),
        other != happening.invocation(),
    ensures
        ({
            let pushed_out = {
                &&& happening is Record
                &&& table.find(happening.invocation()) is None
                &&& table.order.len() == WEBMCP_INFLIGHT_LIMIT
                &&& table.order.first() == other
            };
            table.after(happening).find(other) == if pushed_out {
                None
            } else {
                table.find(other)
            }
        }),
{
    if table.order.len() > 0 {
        assert(table.order.push(happening.invocation()).first() == table.order[0]);
    }
}

/// An invocation is remembered until it is answered or as many others that came later are
/// under way as the table remembers. Those that have been answered do not count.
pub proof fn law_remembered_until_crowded_out(
    table: InFlightView,
    invocation: Seq<char>,
    happenings: Seq<Happening>,
)
    requires
        table.wf(),
        table.find(invocation) is Some,
        forall|i: int|
            0 <= i < happenings.len() ==> (#[trigger] happenings[i]).invocation() != invocation,
        never_crowded(later(table, invocation), happenings),
    ensures
        table.after_all(happenings).find(invocation) == table.find(invocation),
{
    assert(table.by_id.contains_key(invocation));
    let place = table.order.index_of(invocation);
    let pending = later(table, invocation);
    assert forall|j: int| place < j < table.order.len() implies pending.contains(
        #[trigger] table.order[j],
    ) by {
        assert(pending[j - place - 1] == table.order[j]);
    }
    lemma_remembered(table, invocation, place, pending, happenings);
}

/// Distinct identifiers that all are in a list are no more than the list is long.
proof fn lemma_no_more_than(few: Seq<Seq<char>>, many: Seq<Seq<char>>)
    requires
        few.no_duplicates(),
        forall|i: int| 0 <= i < few.len() ==> many.contains(#[trigger] few[i]),
    ensures
        few.len() <= many.len(),
{
    few.unique_seq_to_set();
    many.lemma_cardinality_of_set();
    vstd::seq_lib::seq_to_set_is_finite(many);
    assert forall|id: Seq<char>| few.to_set().contains(id) implies many.to_set().contains(id) by {
        assert(few.contains(id));
        assert(many.contains(few[few.index_of(id)]));
    }
    vstd::set_lib::lemma_len_subset(few.to_set(), many.to_set());
}

proof fn lemma_remembered(
    table: InFlightView,
    invocation: Seq<char>,
    place: int,
    pending: Seq<Seq<char>>,
    happenings: Seq<Happening>,
)
    requires
        table.wf(),
        0 <= place < table.order.len(),
        table.order[place] == invocation,
        forall|j: int|
            place < j < table.order.len() ==> pending.contains(#[trigger] table.order[j]),
        forall|i: int|
            0 <= i < happenings.len() ==> (#[trigger] happenings[i]).invocation() != invocation,
        never_crowded(pending, happenings),
    ensures
        table.after_all(happenings).find(invocation) == table.find(invocation),
    decreases happenings.len(),
{
    if happenings.len() > 0 {
        let first = happenings.first();
        let rest = happenings.drop_first();
        let other = first.invocation();
        let next = table.after(first);
        let next_pending = pending_after(pending, first);
        assert(first == happenings[0]);
        assert forall|i: int| 0 <= i < rest.len() implies (#[trigger] rest[i]).invocation()
            != invocation by {
            assert(rest[i] == happenings[i + 1]);
        }
        assert(table.order.contains(invocation));
        assert(never_crowded(next_pending, rest));
        assert(next_pending.len() < WEBMCP_INFLIGHT_LIMIT);
        law_only_the_oldest_is_pushed_out(table, first, invocation);
        assert forall|id: Seq<char>| #[trigger] pending.contains(id) && id != other implies
            next_pending.contains(id) by {
            let i = pending.index_of(id);
            match first {
                Happening::Record(..) => {
                    assert(next_pending[i] == id);
                },
                Happening::Take(_) => {
                    if pending.contains(other) {
                        let gap = pending.index_of(other);
                        assert(next_pending[if i < gap {
                            i
                        } else {
                            i - 1
                        }] == id);
                    }
                },
            }
        }
        match first {
            Happening::Record(_, tool, frame) => {
                lemma_record_keeps_bound(table, other, tool, frame);
                assert(next_pending.contains(other)) by {
                    if !pending.contains(other) {
                        assert(next_pending[next_pending.len() - 1] == other);
                    }
                }
                assert forall|j: int| place < j < table.order.len() implies next_pending.contains(
                    #[trigger] table.order[j],
                ) by {
                    assert(pending.contains(table.order[j]));
                }
                if table.by_id.contains_key(other) {
                    lemma_remembered(next, invocation, place, next_pending, rest);
                } else if table.order.len() < WEBMCP_INFLIGHT_LIMIT {
                    assert(next.order == table.order.push(other));
                    lemma_remembered(next, invocation, place, next_pending, rest);
                } else {
                    let all = table.order.push(other);
                    assert(next.order == all.drop_first());
                    if place == 0 {
                        assert forall|i: int| 0 <= i < next.order.len() implies
                            next_pending.contains(#[trigger] next.order[i]) by {
                            assert(next.order[i] == all[i + 1]);
                            if i + 1 < table.order.len() {
                                assert(next.order[i] == table.order[i + 1]);
                            }
                        }
                        lemma_no_more_than(next.order, next_pending);
                    }
                    assert forall|j: int| place - 1 < j < next.order.len() implies
                        next_pending.contains(#[trigger] next.order[j]) by {
                        assert(next.order[j] == all[j + 1]);
                        if j + 1 < table.order.len() {
                            assert(next.order[j] == table.order[j + 1]);
                        }
                    }
                    lemma_remembered(next, invocation, place - 1, next_pending, rest);
                }
            },
            Happening::Take(_) => {
                lemma_take_keeps_bound(table, other);
                if table.order.contains(other) {
                    let gap = table.order.index_of(other);
                    assert(next.order == table.order.remove(gap));
                    let moved = if gap < place {
                        place - 1
                    } else {
                        place
                    };
                    assert(next.order[moved] == invocation);
                    assert forall|j: int| moved < j < next.order.len() implies
                        next_pending.contains(#[trigger] next.order[j]) by {
                        let from = if j < gap {
                            j
                        } else {
                            j + 1
                        };
                        assert(next.order[j] == table.order[from]);
                        assert(pending.contains(table.order[from]));
                        assert(table.order[from] != other);
                    }
                    lemma_remembered(next, invocation, moved, next_pending, rest);
                } else {
                    assert forall|j: int| place < j < next.order.len() implies
                        next_pending.contains(#[trigger] next.order[j]) by {
                        assert(next.order[j] == table.order[j]);
                        assert(table.order.contains(table.order[j]));
                        assert(pending.contains(table.order[j]));
                    }
                    lemma_remembered(next, invocation, place, next_pending, rest);
                }
            },
        }
    }
}

/// Whether each of the happenings is an invocation that the table cannot name and
/// that comes only once.
pub open spec fn all_new(table: InFlightView, happenings: Seq<Happening>) -> bool {
    &&& forall|i: int|
        0 <= i < happenings.len() ==> {
            &&& (#[trigger] happenings[i]) is Record
            &&& !table.by_id.contains_key(happenings[i].invocation())
        }
    &&& forall|i: int, j: int|
        0 <= i < j < happenings.len() ==> (#[trigger] happenings[i]).invocation() != (
        #[trigger] happenings[j]).invocation()
}

/// Invocations leave oldest first: once more new ones have come than places are free and
/// older invocations are queued, an invocation is forgotten.
pub proof fn law_oldest_leaves_first(
    table: InFlightView,
    place: int,
    happenings: Seq<Happening>,
)
    requires
        table.wf(),
        0 <= place < table.order.len(),
        all_new(table, happenings),
        forall|i: int|
            0 <= i < happenings.len() ==> (#[trigger] happenings[i]).invocation()
                != table.order[place],
        happenings.len() > WEBMCP_INFLIGHT_LIMIT - table.order.len() + place,
    ensures
        table.after_all(happenings).find(table.order[place]) is None,
    decreases happenings.len(),
{
    let invocation = table.order[place];
    let first = happenings.first();
    let rest = happenings.drop_first();
    assert(first == happenings[0]);
    let next = table.after(first);
    lemma_record_keeps_bound(table, first->Record_0, first->Record_1, first->Record_2);
    assert forall|i: int| 0 <= i < rest.len() implies {
        &&& (#[trigger] rest[i]) is Record
        &&& !next.by_id.contains_key(rest[i].invocation())
        &&& rest[i].invocation() != invocation
    } by {
        assert(rest[i] == happenings[i + 1]);
        assert(happenings[0].invocation() != happenings[i + 1].invocation());
    }
    assert forall|i: int, j: int| 0 <= i < j < rest.len() implies (#[trigger] rest[i]).invocation()
        != (#[trigger] rest[j]).invocation() by {
        assert(rest[i] == happenings[i + 1]);
        assert(rest[j] == happenings[j + 1]);
    }
    if table.order.len() < WEBMCP_INFLIGHT_LIMIT {
        assert(next.order[place] == invocation);
        law_oldest_leaves_first(next, place, rest);
    } else if place > 0 {
        assert(next.order[place - 1] == table.order.push(first.invocation())[place]);
        law_oldest_leaves_first(next, place - 1, rest);
    } else {
        assert(table.order.push(first.invocation()).first() == invocation);
        lemma_stays_forgotten(next, invocation, rest);
    }
}

proof fn lemma_stays_forgotten(
    table: InFlightView,
    invocation: Seq<char>,
    happenings: Seq<Happening>,
)
    requires
        table.find(invocation) is None,
        forall|i: int|
            0 <= i < happenings.len() ==> (#[trigger] happenings[i]).invocation() != invocation,
    ensures
        table.after_all(happenings).find(invocation) is None,
    decreases happenings.len(),
{
    if happenings.len() > 0 {
        let rest = happenings.drop_first();
        assert(happenings.first() == happenings[0]);
        assert forall|i: int| 0 <= i < rest.len() implies (#[trigger] rest[i]).invocation()
            != invocation by {
            assert(rest[i] == happenings[i + 1]);
        }
        lemma_stays_forgotten(table.after(happenings.first()), invocation, rest);
    }
}

/// Seeing an invocation adds it as the newest, with its tool and frame; one that is under
/// way already keeps its place. Of more than 256 the oldest goes, and no other.
pub proof fn law_seeing_an_invocation(
    table: InFlightView,
    invocation: Seq<char>,
    tool: Seq<char>,
    frame: Seq<char>,
)
    requires
        table.wf(),
    ensures
        ({
            let after = table.record(invocation, tool, frame);
            if table.by_id.contains_key(invocation) {
                &&& after.order == table.order
                &&& after.by_id == table.by_id.insert(invocation, (tool, frame))
            } else if table.order.len() < 256 {
                &&& after.order == table.order + seq![invocation]
                &&& after.by_id == table.by_id.insert(invocation, (tool, frame))
            } else {
                &&& after.order == table.order.subrange(1, 256) + seq![invocation]
                &&& after.by_id == table.by_id.remove(table.order[0]).insert(
                    invocation,
                    (tool, frame),
                )
            }
        }),
{
    let after = table.record(invocation, tool, frame);
    if !table.by_id.contains_key(invocation) {
        assert(!table.order.contains(invocation));
        if table.order.len() < 256 {
            assert(after.order =~= table.order + seq![invocation]);
        } else {
            assert(table.order.contains(table.order[0]));
            assert(table.order.push(invocation).first() == table.order[0]);
            assert(after.order =~= table.order.subrange(1, 256) + seq![invocation]);
            assert(after.by_id =~= table.by_id.remove(table.order[0]).insert(
                invocation,
                (tool, frame),
            ));
        }
    }
}

/// Answering an invocation forgets it and takes out its place; the others stay, in their
/// order. Answering one that is not under way changes nothing.
pub proof fn law_answering_an_invocation(table: InFlightView, invocation: Seq<char>, place: int)
    requires
        table.wf(),
        0 <= place < table.order.len() ==> table.order[place] == invocation,
    ensures
        ({
            let after = table.taken(invocation);
            &&& after.by_id == table.by_id.remove(invocation)
            &&& 0 <= place < table.order.len() ==> after.order == table.order.subrange(0, place)
                + table.order.subrange(place + 1, table.order.len() as int)
            &&& !table.by_id.contains_key(invocation) ==> after == table
        }),
{
    let after = table.taken(invocation);
    if 0 <= place < table.order.len() {
        assert(table.order.contains(invocation));
        assert(table.order.index_of(invocation) == place);
        assert(after.order =~= table.order.subrange(0, place) + table.order.subrange(
            place + 1,
            table.order.len() as int,
        ));
    }
    if !table.by_id.contains_key(invocation) {
        assert(!table.order.contains(invocation));
        assert(after.by_id =~= table.by_id);
    }
}

/// What is found of an invocation is the tool and the frame that the table has for it.
pub proof fn law_finding_an_invocation(table: InFlightView, invocation: Seq<char>)
    ensures
        table.by_id.contains_key(invocation) ==> table.find(invocation) == Some(
            table.by_id[invocation],
        ),
        !table.by_id.contains_key(invocation) ==> table.find(invocation) is None,
{
}

/// A new table names nothing and queues nothing.
pub proof fn law_a_new_table_is_empty(invocation: Seq<char>)
    ensures
        !InFlightView::empty().by_id.contains_key(invocation),
        InFlightView::empty().order.len() == 0,
{
}

} // verus!
