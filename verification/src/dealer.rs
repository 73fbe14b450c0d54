//! A dealer: the miners it accepts and, for each token it sells, the markup
//! it applies and the highest markup allowed.
use vstd::prelude::*;
use crate::search::{first_match, lemma_first_match_facts, lemma_first_match_is, lemma_first_match_none};
use crate::token::copy_ids;
use crate::{index_or_not_find, NOT_FIND, ZERO_ADDR};

verus! {

/// A dealer. `addr` and the entries of `miners` are positions in the address
/// registry. `tokens[i]` is sold with markup `markups[i]`, at most
/// `max_markups[i]`.
pub struct Dealer {
    pub state: u8,
    pub addr: u64,
    pub miners: Vec<u64>,
    pub markups: Vec<u16>,
    pub max_markups: Vec<u16>,
    pub tokens: Vec<u64>,
}

/// The value of a dealer, with its lists as sequences.
#[verifier::ext_equal]
pub struct DealerModel {
    pub state: u8,
    pub addr: u64,
    pub miners: Seq<u64>,
    pub markups: Seq<u16>,
    pub max_markups: Seq<u16>,
    pub tokens: Seq<u64>,
}

/// The predicate "equals `x`".
pub open spec fn eq_u64(x: u64) -> spec_fn(u64) -> bool {
    |y: u64| y == x
}

/// The first position of `x` in `v`, as a search returns it.
pub fn position_u64(v: &Vec<u64>, x: u64) -> (r: usize)
    ensures
        r == index_or_not_find(first_match(v@, eq_u64(x))),
        r == NOT_FIND <==> !v@.contains(x),
        r != NOT_FIND ==> r < v@.len() && v@[r as int] == x,
        r != NOT_FIND ==> first_match(v@, eq_u64(x)) == r,
        r == NOT_FIND ==> first_match(v@, eq_u64(x)) == -1,
{
    let n = v.len();
    let mut i: usize = 0;
    while i < n
        invariant
            n == v@.len(),
            i <= n,
            forall|j: int| 0 <= j < i ==> !eq_u64(x)(#[trigger] v@[j]),
        decreases n - i,
    {
        if v[i] == x {
            proof {
                lemma_first_match_is(v@, eq_u64(x), i as int);
                assert(v@[i as int] == x);
            }
            return i;
        }
        i = i + 1;
    }
    proof {
        lemma_first_match_none(v@, eq_u64(x));
        assert(!v@.contains(x)) by {
            if v@.contains(x) {
                let k = choose|k: int| 0 <= k < v@.len() && v@[k] == x;
                assert(!eq_u64(x)(v@[k]));
            }
        }
    }
    NOT_FIND
}

impl DealerModel {
    /// The three token lists have one entry per token.
    pub open spec fn wf(self) -> bool {
        &&& self.markups.len() == self.tokens.len()
        &&& self.max_markups.len() == self.tokens.len()
    }

    /// Each token of the list has a markup and a highest markup.
    pub open spec fn readable(self) -> bool {
        &&& self.markups.len() >= self.tokens.len()
        &&& self.max_markups.len() >= self.tokens.len()
    }

    /// The first `n` entries of the three token lists, those of token `id`
    /// left out and the others kept in order.
    pub open spec fn kept_entries(self, id: u64, n: nat) -> DealerModel
        decreases n,
    {
        if n == 0 {
            DealerModel { tokens: Seq::empty(), markups: Seq::empty(), max_markups: Seq::empty(), ..self }
        } else {
            let k = n - 1;
            let r = self.kept_entries(id, k as nat);
            if self.tokens[k] == id {
                r
            } else {
                r.with_token(self.tokens[k], self.markups[k], self.max_markups[k])
            }
        }
    }

    /// The dealer without token `id`: every entry of `id` is left out of the
    /// three token lists, the other entries kept in order.
    pub open spec fn without_token(self, id: u64) -> DealerModel {
        self.kept_entries(id, self.tokens.len())
    }

    /// First position of token `id` in the dealer's list, or -1.
    pub open spec fn token_pos(self, id: u64) -> int {
        first_match(self.tokens, eq_u64(id))
    }

    /// The markup and highest markup for token `id`, or `(0, 0)` when the
    /// dealer does not sell it.
    pub open spec fn markup_of(self, id: u64) -> (u16, u16) {
        let p = self.token_pos(id);
        if p >= 0 {
            (self.markups[p], self.max_markups[p])
        } else {
            (0, 0)
        }
    }

    /// The dealer with token `id` added at the end of its lists.
    pub open spec fn with_token(self, id: u64, markup: u16, max_markup: u16) -> DealerModel {
        DealerModel {
            tokens: self.tokens.push(id),
            markups: self.markups.push(markup),
            max_markups: self.max_markups.push(max_markup),
            ..self
        }
    }

    /// What `set_markup` does, token by token: a token already listed gets
    /// the new markup if it is below its highest markup, and otherwise the
    /// walk stops with `false`; a token not listed is added with `markup`
    /// and `max_markup`.
    pub open spec fn after_set_markup(self, ids: Seq<u64>, markup: u16, max_markup: u16) -> (
        DealerModel,
        bool,
    )
        decreases ids.len(),
    {
        if ids.len() == 0 {
            (self, true)
        } else {
            let p = self.token_pos(ids[0]);
            if p >= 0 {
                if markup < self.max_markups[p] {
                    DealerModel { markups: self.markups.update(p, markup), ..self }.after_set_markup(
                        ids.drop_first(),
                        markup,
                        max_markup,
                    )
                } else {
                    (self, false)
                }
            } else {
                self.with_token(ids[0], markup, max_markup).after_set_markup(
                    ids.drop_first(),
                    markup,
                    max_markup,
                )
            }
        }
    }
}

/// Leaving a token out keeps the lists of equal length, the token absent,
/// and the state, address and miners unchanged.
pub proof fn lemma_kept_entries(d: DealerModel, id: u64, n: nat)
    ensures
        d.kept_entries(id, n).wf(),
        !d.kept_entries(id, n).tokens.contains(id),
        d.kept_entries(id, n).tokens.len() <= n,
        d.kept_entries(id, n).state == d.state,
        d.kept_entries(id, n).addr == d.addr,
        d.kept_entries(id, n).miners == d.miners,
    decreases n,
{
    if n > 0 {
        lemma_kept_entries(d, id, (n - 1) as nat);
        let r = d.kept_entries(id, (n - 1) as nat);
        let k = n - 1;
        if d.tokens[k] != id {
            assert forall|j: int| 0 <= j < r.tokens.len() + 1 implies r.tokens.push(d.tokens[k])[j] != id by {
                if j < r.tokens.len() {
                    assert(r.tokens.push(d.tokens[k])[j] == r.tokens[j]);
                }
            }
        }
    }
}

/// `after_set_markup` keeps the lists of equal length.
pub proof fn lemma_after_set_markup_wf(d: DealerModel, ids: Seq<u64>, markup: u16, max_markup: u16)
    requires
        d.wf(),
    ensures
        d.after_set_markup(ids, markup, max_markup).0.wf(),
    decreases ids.len(),
{
    if ids.len() > 0 {
        let p = d.token_pos(ids[0]);
        lemma_first_match_facts(d.tokens, eq_u64(ids[0]));
        if p >= 0 {
            if markup < d.max_markups[p] {
                lemma_after_set_markup_wf(
                    DealerModel { markups: d.markups.update(p, markup), ..d },
                    ids.drop_first(),
                    markup,
                    max_markup,
                );
            }
        } else {
            lemma_after_set_markup_wf(
                d.with_token(ids[0], markup, max_markup),
                ids.drop_first(),
                markup,
                max_markup,
            );
        }
    }
}

impl View for Dealer {
    type V = DealerModel;

    open spec fn view(&self) -> DealerModel {
        DealerModel {
            state: self.state,
            addr: self.addr,
            miners: self.miners@,
            markups: self.markups@,
            max_markups: self.max_markups@,
            tokens: self.tokens@,
        }
    }
}

/// A copy of a vector of markups.
fn copy_markups(v: &Vec<u16>) -> (r: Vec<u16>)
    ensures
        r@ == v@,
{
    let mut r: Vec<u16> = Vec::new();
    let n = v.len();
    let mut i: usize = 0;
    while i < n
        invariant
            n == v@.len(),
            i <= n,
            r@ == v@.subrange(0, i as int),
        decreases n - i,
    {
        r.push(v[i]);
        i = i + 1;
        assert(r@ =~= v@.subrange(0, i as int));
    }
    assert(v@.subrange(0, n as int) =~= v@);
    r
}

impl Dealer {
    /// A new dealer for the address at position `dealer_addr`: state 1 and
    /// empty lists.
    pub fn new(dealer_addr: u64) -> (r: Dealer)
        ensures
            r@ == (DealerModel {
                state: 1,
                addr: dealer_addr,
                miners: Seq::empty(),
                markups: Seq::empty(),
                max_markups: Seq::empty(),
                tokens: Seq::empty(),
            }),
    {
        let r = Dealer {
            state: 1,
            addr: dealer_addr,
            miners: Vec::new(),
            markups: Vec::new(),
            max_markups: Vec::new(),
            tokens: Vec::new(),
        };
        assert(r@.miners =~= Seq::<u64>::empty());
        r
    }

    /// The first position of token `id` in the dealer's list, or `NOT_FIND`.
    pub fn get_idx(&self, id: u64) -> (r: usize)
        ensures
            r == index_or_not_find(self@.token_pos(id)),
            r == NOT_FIND <==> !self@.tokens.contains(id),
            r != NOT_FIND ==> r < self@.tokens.len() && self@.tokens[r as int] == id,
            r != NOT_FIND ==> self@.token_pos(id) == r,
            r == NOT_FIND ==> self@.token_pos(id) == -1,
    {
        position_u64(&self.tokens, id)
    }

    /// The markup and highest markup for token `token_idx`, or `(0, 0)` when
    /// the dealer does not sell it.
    pub fn find_markup(&self, token_idx: u64) -> (r: (u16, u16))
        requires
            self@.readable(),
        ensures
            r == self@.markup_of(token_idx),
    {
        let pos = self.get_idx(token_idx);
        proof {
            lemma_first_match_facts(self@.tokens, eq_u64(token_idx));
        }
        if pos != NOT_FIND {
            return (self.markups[pos], self.max_markups[pos]);
        }
        return (0, 0);
    }

    /// Whether the dealer is the one of the zero address.
    pub fn is_zero(&self) -> (r: bool)
        ensures
            r == (self.addr == ZERO_ADDR),
    {
        return self.addr == ZERO_ADDR;
    }

    /// Adds token `token_id` with its markups, unless the dealer already
    /// sells it; returns whether it was added.
    pub fn add_token(&mut self, token_id: u64, markup: u16, max_markup: u16) -> (r: bool)
        requires
            old(self)@.wf(),
        ensures
            r == !old(self)@.tokens.contains(token_id),
            r ==> final(self)@ == old(self)@.with_token(token_id, markup, max_markup),
            !r ==> final(self)@ == old(self)@,
            final(self)@.wf(),
    {
        let pos = position_u64(&self.tokens, token_id);
        proof {
            lemma_first_match_facts(self@.tokens, eq_u64(token_id));
        }
        if pos != NOT_FIND {
            return false;
        }
        self.tokens.push(token_id);
        self.markups.push(markup);
        self.max_markups.push(max_markup);
        return true;
    }

    /// For each id in turn: a token already listed gets `new_markup` if it is
    /// below that token's highest markup, and otherwise the walk stops and
    /// returns `false`, the earlier changes kept; a token not listed is added
    /// with `new_markup` and `max_markup`.
    pub fn set_markup(&mut self, token_ids: Vec<u64>, new_markup: u16, max_markup: u16) -> (r: bool)
        requires
            old(self)@.wf(),
        ensures
            (final(self)@, r) == old(self)@.after_set_markup(token_ids@, new_markup, max_markup),
            final(self)@.wf(),
    {
        let ghost goal = old(self)@.after_set_markup(token_ids@, new_markup, max_markup);
        proof {
            lemma_after_set_markup_wf(old(self)@, token_ids@, new_markup, max_markup);
            assert(token_ids@.skip(0) =~= token_ids@);
        }
        let n = token_ids.len();
        let mut i: usize = 0;
        let mut ok = true;
        while ok && i < n
            invariant
                n == token_ids@.len(),
                i <= n,
                self@.wf(),
                ok ==> self@.after_set_markup(token_ids@.skip(i as int), new_markup, max_markup) == goal,
                !ok ==> (self@, false) == goal,
            decreases (n - i) as int + if ok { 1int } else { 0int },
        {
            let id = token_ids[i];
            let ghost rest = token_ids@.skip(i as int);
            assert(rest[0] == id);
            assert(rest.drop_first() =~= token_ids@.skip(i + 1));
            let position = self.get_idx(id);
            if position != NOT_FIND {
                if new_markup < self.max_markups[position] {
                    self.markups.set(position, new_markup);
                    i = i + 1;
                } else {
                    assert(rest.len() > 0);
                    ok = false;
                }
            } else {
                let added = self.add_token(id, new_markup, max_markup);
                assert(added);
                i = i + 1;
            }
        }
        assert(token_ids@.skip(n as int) =~= Seq::<u64>::empty());
        ok
    }

    /// This dealer without token `token_id`: its entries for the token are
    /// left out of the three token lists.
    pub fn without_token(&self, token_id: u64) -> (r: Dealer)
        requires
            self@.readable(),
        ensures
            r@ == self@.without_token(token_id),
    {
        let mut r = Dealer {
            state: self.state,
            addr: self.addr,
            miners: copy_ids(&self.miners),
            markups: Vec::new(),
            max_markups: Vec::new(),
            tokens: Vec::new(),
        };
        assert(r@ =~= self@.kept_entries(token_id, 0));
        let n = self.tokens.len();
        let mut i: usize = 0;
        while i < n
            invariant
                n == self@.tokens.len(),
                i <= n,
                self@.readable(),
                r@ == self@.kept_entries(token_id, i as nat),
            decreases n - i,
        {
            let id = self.tokens[i];
            if id != token_id {
                r.tokens.push(id);
                r.markups.push(self.markups[i]);
                r.max_markups.push(self.max_markups[i]);
            }
            i = i + 1;
            assert(r@ =~= self@.kept_entries(token_id, i as nat));
        }
        r
    }

    /// A dealer equal to this one.
    pub fn copy(&self) -> (r: Dealer)
        ensures
            r@ == self@,
    {
        Dealer {
            state: self.state,
            addr: self.addr,
            miners: copy_ids(&self.miners),
            markups: copy_markups(&self.markups),
            max_markups: copy_markups(&self.max_markups),
            tokens: copy_ids(&self.tokens),
        }
    }
}

} // verus!
