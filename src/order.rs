use vstd::prelude::*;
use crate::amount::Amount;
use crate::error::StorageError;
use crate::user::fresh_id;

verus! {

/// The side of an order.
#[derive(Debug, Clone, Copy, PartialEq, Eq, Structural)]
pub enum Side {
    Buy,
    Sell,
}

/// The side a stored text names.
pub open spec fn side_named(s: Seq<char>) -> Option<Side> {
    if s == "buy"@ {
        Some(Side::Buy)
    } else if s == "sell"@ {
        Some(Side::Sell)
    } else {
        None
    }
}

impl Side {
    /// The stored text of a side.
    pub fn as_str(&self) -> (r: &'static str)
        ensures
            side_named(r@) == Some(*self),
    {
        proof {
            reveal_strlit("buy");
            reveal_strlit("sell");
            assert("buy"@[0] == 'b');
            assert("sell"@[0] == 's');
            assert("sell"@ != "buy"@);
        }
        match self {
            Side::Buy => "buy",
            Side::Sell => "sell",
        }
    }

    /// Reads a stored side text.
    pub fn parse(s: &str) -> (r: Option<Side>)
        ensures
            r == side_named(s@),
    {
        let t = s.to_owned();
        if t == "buy".to_owned() {
            Some(Side::Buy)
        } else if t == "sell".to_owned() {
            Some(Side::Sell)
        } else {
            None
        }
    }
}

/// The status of an order: `Open` moves to `Filled` or `Cancelled`, never back.
#[derive(Debug, Clone, Copy, PartialEq, Eq, Structural)]
pub enum OrderStatus {
    Open,
    Filled,
    Cancelled,
}

/// The status a stored text names.
pub open spec fn status_named(s: Seq<char>) -> Option<OrderStatus> {
    if s == "open"@ {
        Some(OrderStatus::Open)
    } else if s == "filled"@ {
        Some(OrderStatus::Filled)
    } else if s == "cancelled"@ {
        Some(OrderStatus::Cancelled)
    } else {
        None
    }
}

impl OrderStatus {
    /// The stored text of a status.
    pub fn as_str(&self) -> (r: &'static str)
        ensures
            status_named(r@) == Some(*self),
    {
        proof {
            reveal_strlit("open");
            reveal_strlit("filled");
            reveal_strlit("cancelled");
            assert("open"@[0] == 'o');
            assert("filled"@[0] == 'f');
            assert("cancelled"@[0] == 'c');
            assert("filled"@ != "open"@);
            assert("cancelled"@ != "open"@);
            assert("cancelled"@ != "filled"@);
        }
        match self {
            OrderStatus::Open => "open",
            OrderStatus::Filled => "filled",
            OrderStatus::Cancelled => "cancelled",
        }
    }

    /// Whether an order in this status may move to `to`.
    pub fn can_move_to(&self, to: OrderStatus) -> (r: bool)
        ensures
            r == may_transition(*self, to),
    {
        *self == OrderStatus::Open && to != OrderStatus::Open
    }

    /// Reads a stored status text.
    pub fn parse(s: &str) -> (r: Option<OrderStatus>)
        ensures
            r == status_named(s@),
    {
        let t = s.to_owned();
        if t == "open".to_owned() {
            Some(OrderStatus::Open)
        } else if t == "filled".to_owned() {
            Some(OrderStatus::Filled)
        } else if t == "cancelled".to_owned() {
            Some(OrderStatus::Cancelled)
        } else {
            None
        }
    }
}

/// A transition between statuses is allowed only out of `Open`.
pub open spec fn may_transition(from: OrderStatus, to: OrderStatus) -> bool {
    from == OrderStatus::Open && to != OrderStatus::Open
}

/// A user's trade intent.
#[derive(Debug, Clone, Copy, PartialEq, Eq, Structural)]
pub struct Order {
    pub id: u128,
    pub user_id: u128,
    pub side: Side,
    pub price: Amount,
    pub qty: Amount,
    pub status: OrderStatus,
    pub created_at: i64,
}

/// No two rows share an identifier.
pub open spec fn ids_unique(rows: Seq<Order>) -> bool {
    forall|i: int, j: int|
        0 <= i < rows.len() && 0 <= j < rows.len() && i != j ==> (#[trigger] rows[i]).id != (#[trigger] rows[j]).id
}

/// Rows are kept in order of creation time.
pub open spec fn stamps_sorted(rows: Seq<Order>) -> bool {
    forall|i: int, j: int| 0 <= i < j < rows.len() ==> (#[trigger] rows[i]).created_at <= (#[trigger] rows[j]).created_at
}

/// `p` is where a row stamped `now` goes in rows sorted by creation time:
/// after every row stamped no later, before every row stamped later.
pub open spec fn sorted_slot(rows: Seq<Order>, now: i64, p: int) -> bool {
    &&& 0 <= p <= rows.len()
    &&& forall|k: int| 0 <= k < p ==> (#[trigger] rows[k]).created_at <= now
    &&& forall|k: int| p <= k < rows.len() ==> (#[trigger] rows[k]).created_at > now
}

/// The position of the row with this identifier, or -1.
pub open spec fn position_of(rows: Seq<Order>, id: u128) -> int {
    if exists|i: int| 0 <= i < rows.len() && (#[trigger] rows[i]).id == id {
        choose|i: int| 0 <= i < rows.len() && (#[trigger] rows[i]).id == id
    } else {
        -1
    }
}

/// The open orders, oldest first.
pub open spec fn open_orders(rows: Seq<Order>) -> Seq<Order>
    decreases rows.len(),
{
    if rows.len() == 0 {
        Seq::empty()
    } else {
        let rest = open_orders(rows.drop_last());
        if rows.last().status == OrderStatus::Open {
            rest.push(rows.last())
        } else {
            rest
        }
    }
}

/// A user's orders, newest first.
pub open spec fn orders_of(rows: Seq<Order>, user_id: u128) -> Seq<Order>
    decreases rows.len(),
{
    if rows.len() == 0 {
        Seq::empty()
    } else {
        let rest = orders_of(rows.drop_last(), user_id);
        if rows.last().user_id == user_id {
            seq![rows.last()] + rest
        } else {
            rest
        }
    }
}

/// The order rows, kept in creation order, with unique identifiers.
pub struct OrderTable {
    rows: Vec<Order>,
}

impl OrderTable {
    pub closed spec fn rows(&self) -> Seq<Order> {
        self.rows@
    }

    pub open spec fn wf(&self) -> bool {
        ids_unique(self.rows()) && stamps_sorted(self.rows())
    }

    pub fn new() -> (r: OrderTable)
        ensures
            r.wf(),
            r.rows() == Seq::<Order>::empty(),
    {
        OrderTable { rows: Vec::new() }
    }

    fn position(&self, id: u128) -> (r: Option<usize>)
        requires
            self.wf(),
        ensures
            r is None <==> position_of(self.rows(), id) == -1,
            r matches Some(i) ==> i == position_of(self.rows(), id) && i < self.rows().len()
                && self.rows()[i as int].id == id,
    {
        let mut i: usize = 0;
        while i < self.rows.len()
            invariant
                0 <= i <= self.rows@.len(),
                self.wf(),
                forall|k: int| 0 <= k < i ==> (#[trigger] self.rows@[k]).id != id,
            decreases self.rows@.len() - i,
        {
            if self.rows[i].id == id {
                proof {
                    assert(self.rows() == self.rows@);
                    assert(self.rows()[i as int].id == id);
                    let j = position_of(self.rows(), id);
                    if i as int != j {
                        assert(self.rows()[i as int].id != self.rows()[j].id);
                    }
                }
                return Some(i);
            }
            i += 1;
        }
        assert(self.rows() == self.rows@);
        None
    }

    /// Point lookup by identifier.
    pub fn find_by_id(&self, id: u128) -> (r: Option<Order>)
        requires
            self.wf(),
        ensures
            position_of(self.rows(), id) == -1 ==> r is None,
            position_of(self.rows(), id) != -1 ==> r == Some(self.rows()[position_of(self.rows(), id)]),
    {
        match self.position(id) {
            Some(i) => Some(self.rows[i]),
            None => None,
        }
    }

    /// Stores a new open order under the given identifier, stamped at `now`, in
    /// its place by creation time; an identifier already taken is refused.
    pub fn insert_new(&mut self, id: u128, user_id: u128, side: Side, price: Amount, qty: Amount, now: i64) -> (r: Result<Order, StorageError>)
        requires
            old(self).wf(),
        ensures
            final(self).wf(),
            r is Ok <==> position_of(old(self).rows(), id) == -1,
            r matches Ok(o) ==> o.id == id && o.user_id == user_id && o.side == side && o.price == price && o.qty == qty
                && o.status == OrderStatus::Open && o.created_at == now
                && exists|p: int| sorted_slot(old(self).rows(), now, p) && final(self).rows() == old(self).rows().insert(p, o),
            r matches Err(e) ==> e == StorageError::UniqueViolation && final(self).rows() == old(self).rows(),
    {
        if self.position(id).is_some() {
            return Err(StorageError::UniqueViolation);
        }
        let o = Order { id, user_id, side, price, qty, status: OrderStatus::Open, created_at: now };
        let mut p: usize = self.rows.len();
        while p > 0 && self.rows[p - 1].created_at > now
            invariant
                0 <= p <= self.rows@.len(),
                forall|k: int| p <= k < self.rows@.len() ==> (#[trigger] self.rows@[k]).created_at > now,
            decreases p,
        {
            p -= 1;
        }
        proof {
            let prev = self.rows@;
            assert(self.rows() == prev);
            assert forall|k: int| 0 <= k < p implies (#[trigger] prev[k]).created_at <= now by {
                assert(prev[k].created_at <= prev[p - 1].created_at);
            }
            assert(sorted_slot(prev, now, p as int));
        }
        self.rows.insert(p, o);
        proof {
            let rows = self.rows@;
            let prev = old(self).rows@;
            assert(old(self).rows() == prev);
            assert(rows == prev.insert(p as int, o));
            assert forall|i: int| 0 <= i < rows.len() implies
                (i < p ==> #[trigger] rows[i] == prev[i]) && (i > p ==> rows[i] == prev[i - 1]) && (i == p ==> rows[i] == o) by {}
            assert forall|i: int, j: int|
                0 <= i < rows.len() && 0 <= j < rows.len() && i != j implies (#[trigger] rows[i]).id != (#[trigger] rows[j]).id by {
                if i == p {
                    assert(!(0 <= j - 1 < prev.len() && prev[j - 1].id == id));
                    assert(!(0 <= j < prev.len() && prev[j].id == id));
                }
                if j == p {
                    assert(!(0 <= i - 1 < prev.len() && prev[i - 1].id == id));
                    assert(!(0 <= i < prev.len() && prev[i].id == id));
                }
            }
            assert forall|i: int, j: int| 0 <= i < j < rows.len() implies (#[trigger] rows[i]).created_at <= (#[trigger] rows[j]).created_at by {
                if j < p {
                    assert(prev[i].created_at <= prev[j].created_at);
                } else if j == p {
                    assert(prev[i].created_at <= now);
                } else if i < p {
                    assert(prev[i].created_at <= prev[j - 1].created_at);
                } else if i == p {
                    assert(prev[j - 1].created_at > now);
                } else {
                    assert(prev[i - 1].created_at <= prev[j - 1].created_at);
                }
            }
        }
        Ok(o)
    }

    /// Stores a new open order with a new random identifier, stamped at `now`.
    pub fn create(&mut self, user_id: u128, side: Side, price: Amount, qty: Amount, now: i64) -> (r: Result<Order, StorageError>)
        requires
            old(self).wf(),
        ensures
            final(self).wf(),
            old(self).rows().len() == 0 ==> r is Ok,
            r matches Ok(o) ==> o.user_id == user_id && o.side == side && o.price == price && o.qty == qty
                && o.status == OrderStatus::Open && o.created_at == now && position_of(old(self).rows(), o.id) == -1
                && exists|p: int| sorted_slot(old(self).rows(), now, p) && final(self).rows() == old(self).rows().insert(p, o),
            r matches Err(e) ==> e == StorageError::UniqueViolation && final(self).rows() == old(self).rows(),
    {
        self.insert_new(fresh_id(), user_id, side, price, qty, now)
    }

    /// All open orders, oldest first.
    pub fn find_open_orders(&self) -> (r: Vec<Order>)
        requires
            self.wf(),
        ensures
            r@ == open_orders(self.rows()),
            forall|a: int, b: int| 0 <= a < b < r@.len() ==> (#[trigger] r@[a]).created_at <= (#[trigger] r@[b]).created_at,
    {
        let mut out: Vec<Order> = Vec::new();
        let mut i: usize = 0;
        assert(self.rows() == self.rows@);
        while i < self.rows.len()
            invariant
                0 <= i <= self.rows@.len(),
                stamps_sorted(self.rows@),
                out@ == open_orders(self.rows@.take(i as int)),
                forall|a: int, b: int| 0 <= a < b < out@.len() ==> (#[trigger] out@[a]).created_at <= (#[trigger] out@[b]).created_at,
                forall|k: int, m: int| 0 <= k < out@.len() && i <= m < self.rows@.len()
                    ==> (#[trigger] out@[k]).created_at <= (#[trigger] self.rows@[m]).created_at,
            decreases self.rows@.len() - i,
        {
            assert(self.rows@.take(i as int + 1).drop_last() =~= self.rows@.take(i as int));
            if self.rows[i].status == OrderStatus::Open {
                out.push(self.rows[i]);
            }
            i += 1;
        }
        assert(self.rows@.take(i as int) =~= self.rows@);
        out
    }

    /// A user's orders, newest first.
    pub fn find_by_user(&self, user_id: u128) -> (r: Vec<Order>)
        requires
            self.wf(),
        ensures
            r@ == orders_of(self.rows(), user_id),
            forall|a: int, b: int| 0 <= a < b < r@.len() ==> (#[trigger] r@[a]).created_at >= (#[trigger] r@[b]).created_at,
    {
        let mut out: Vec<Order> = Vec::new();
        let mut i: usize = 0;
        assert(self.rows() == self.rows@);
        while i < self.rows.len()
            invariant
                0 <= i <= self.rows@.len(),
                stamps_sorted(self.rows@),
                out@ == orders_of(self.rows@.take(i as int), user_id),
                forall|a: int, b: int| 0 <= a < b < out@.len() ==> (#[trigger] out@[a]).created_at >= (#[trigger] out@[b]).created_at,
                forall|k: int, m: int| 0 <= k < out@.len() && i <= m < self.rows@.len()
                    ==> (#[trigger] out@[k]).created_at <= (#[trigger] self.rows@[m]).created_at,
            decreases self.rows@.len() - i,
        {
            assert(self.rows@.take(i as int + 1).drop_last() =~= self.rows@.take(i as int));
            if self.rows[i].user_id == user_id {
                let ghost before = out@;
                out.insert(0, self.rows[i]);
                assert(out@ =~= seq![self.rows@[i as int]] + before);
            }
            i += 1;
        }
        assert(self.rows@.take(i as int) =~= self.rows@);
        out
    }

    /// Moves the order with this identifier out of `Open` to `status`; no such
    /// row, or a transition other than out of `Open`, is `NoRowMatched`, with
    /// the table unchanged.
    pub fn update_status(&mut self, id: u128, status: OrderStatus) -> (r: Result<Order, StorageError>)
        requires
            old(self).wf(),
        ensures
            final(self).wf(),
            !transition_applies(old(self).rows(), id, status) ==> r == Err::<Order, StorageError>(StorageError::NoRowMatched)
                && final(self).rows() == old(self).rows(),
            transition_applies(old(self).rows(), id, status) ==> {
                let p = position_of(old(self).rows(), id);
                let o = Order { status, ..old(self).rows()[p] };
                r == Ok::<Order, StorageError>(o) && final(self).rows() == old(self).rows().update(p, o)
            },
    {
        match self.position(id) {
            None => Err(StorageError::NoRowMatched),
            Some(i) => {
                if !self.rows[i].status.can_move_to(status) {
                    return Err(StorageError::NoRowMatched);
                }
                let o = Order { status, ..self.rows[i] };
                self.rows.set(i, o);
                proof {
                    assert(self.rows() == self.rows@);
                    assert(forall|k: int| 0 <= k < self.rows@.len() ==> (#[trigger] self.rows@[k]).id == old(self).rows@[k].id
                        && self.rows@[k].created_at == old(self).rows@[k].created_at);
                }
                Ok(o)
            },
        }
    }

    /// Cancels the order with this identifier if it belongs to this user and is
    /// still open; otherwise `NoRowMatched`, with the table unchanged.
    pub fn cancel_order(&mut self, id: u128, user_id: u128) -> (r: Result<Order, StorageError>)
        requires
            old(self).wf(),
        ensures
            final(self).wf(),
            cancellable(old(self).rows(), id, user_id) ==> {
                let p = position_of(old(self).rows(), id);
                let o = Order { status: OrderStatus::Cancelled, ..old(self).rows()[p] };
                r == Ok::<Order, StorageError>(o) && final(self).rows() == old(self).rows().update(p, o)
            },
            !cancellable(old(self).rows(), id, user_id) ==> r == Err::<Order, StorageError>(StorageError::NoRowMatched)
                && final(self).rows() == old(self).rows(),
    {
        match self.position(id) {
            None => Err(StorageError::NoRowMatched),
            Some(i) => {
                if self.rows[i].user_id != user_id || self.rows[i].status != OrderStatus::Open {
                    return Err(StorageError::NoRowMatched);
                }
                let o = Order { status: OrderStatus::Cancelled, ..self.rows[i] };
                self.rows.set(i, o);
                proof {
                    assert(self.rows() == self.rows@);
                    assert(forall|k: int| 0 <= k < self.rows@.len() ==> (#[trigger] self.rows@[k]).id == old(self).rows@[k].id
                        && self.rows@[k].created_at == old(self).rows@[k].created_at);
                }
                Ok(o)
            },
        }
    }
}

/// The order with this identifier exists and may move to `status`.
pub open spec fn transition_applies(rows: Seq<Order>, id: u128, status: OrderStatus) -> bool {
    let p = position_of(rows, id);
    p != -1 && may_transition(rows[p].status, status)
}

/// The order with this identifier exists, belongs to this user and is open.
pub open spec fn cancellable(rows: Seq<Order>, id: u128, user_id: u128) -> bool {
    let p = position_of(rows, id);
    p != -1 && rows[p].user_id == user_id && rows[p].status == OrderStatus::Open
}

/// An order that is not open cannot be cancelled, nor moved to any status:
/// the attempt fails and its status stays as it was.
pub proof fn lemma_cancel_needs_open(rows: Seq<Order>, id: u128, user_id: u128, status: OrderStatus)
    requires
        ids_unique(rows),
        position_of(rows, id) != -1,
        rows[position_of(rows, id)].status != OrderStatus::Open,
    ensures
        !cancellable(rows, id, user_id),
        !transition_applies(rows, id, status),
{
}

/// Cancelling moves an order out of `Open` by an allowed transition.
pub proof fn lemma_cancel_is_allowed_transition(rows: Seq<Order>, id: u128, user_id: u128)
    requires
        cancellable(rows, id, user_id),
    ensures
        may_transition(rows[position_of(rows, id)].status, OrderStatus::Cancelled),
{
}

} // verus!
