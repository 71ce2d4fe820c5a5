use crate::identity::{principal_text_of, username_of_text, Identity};
use crate::insight::{template_insight, template_summary, template_risks, AIInsight, AIInsightView};
use crate::market::{
    Market, MarketComment, MarketCommentView, MarketStatus, MarketView, Trade, TradeView,
    UserProfile, UserProfileView,
};
use crate::pricing::{calculate_price, price_of};
use vstd::prelude::*;
use vstd::string::*;

verus! {

/// Shares each side of a newly created market starts with.
pub const SEED_SHARES: u64 = 500;

/// Liquidity each side of a newly created market starts with.
pub const SEED_LIQUIDITY: u64 = 5000;

/// Percentage of each trade's amount collected into the treasury.
pub const FEE_PERCENT: u64 = 2;

/// Amount of a trade that earns one point of experience.
pub const XP_DIVISOR: u64 = 10;

/// Longest comment, in characters.
pub const MAX_COMMENT_CHARS: usize = 500;

/// Number of profiles on the leaderboard.
pub const LEADERBOARD_SIZE: usize = 20;

/// How long a cached insight stays fresh, in nanoseconds: one hour.
pub const INSIGHT_TTL: u64 = 3_600_000_000_000;

/// Why a market or a comment was refused.
#[derive(Clone, Copy, Debug, PartialEq, Eq, Structural)]
pub enum ValidationError {
    /// The title or the description is empty.
    EmptyTitleOrDescription,
    /// The comment is empty or longer than 500 characters.
    CommentLength,
}

/// A step in a market's lifecycle.
#[derive(Clone, Copy, Debug, PartialEq, Eq, Structural)]
pub enum StatusChange {
    /// Validation passed: a pending market becomes active.
    Approve,
    /// Trading ends: an active market closes.
    Close,
    /// The outcome is known: a closed market is resolved with it.
    Resolve(bool),
}

/// Why a lifecycle step was refused.
#[derive(Clone, Copy, Debug, PartialEq, Eq, Structural)]
pub enum TransitionError {
    /// No market has the given id.
    NotFound,
    /// The market's status does not allow the step.
    NotAllowed,
}

/// The status a market in `from` moves to on `change`, if it may.
pub open spec fn next_status(from: MarketStatus, change: StatusChange) -> Option<MarketStatus> {
    match (from, change) {
        (MarketStatus::PendingValidation, StatusChange::Approve) => Some(MarketStatus::Active),
        (MarketStatus::Active, StatusChange::Close) => Some(MarketStatus::Closed),
        (MarketStatus::Closed, StatusChange::Resolve(_)) => Some(MarketStatus::Resolved),
        _ => None,
    }
}

/// A market after a permitted lifecycle step: its status changes and, on
/// resolution, its outcome is recorded.
pub open spec fn after_change(m: MarketView, change: StatusChange) -> MarketView {
    MarketView {
        status: next_status(m.status, change)->Some_0,
        resolved_outcome: match change {
            StatusChange::Resolve(outcome) => Some(outcome),
            _ => m.resolved_outcome,
        },
        ..m
    }
}

/// Why a purchase of shares was refused.
#[derive(Clone, Copy, Debug, PartialEq, Eq, Structural)]
pub enum TradeError {
    /// The amount is zero.
    InvalidAmount,
    /// No market has the given id.
    NotFound,
    /// The market does not accept trades.
    MarketNotActive,
}

/// Fee collected on a trade of `amount`.
pub open spec fn fee_of(amount: int) -> int {
    amount * FEE_PERCENT / 100
}

/// Position of the market with id `id`, or -1.
pub open spec fn market_pos(ms: Seq<MarketView>, id: u64) -> int {
    if exists|i: int| 0 <= i < ms.len() && ms[i].id == id {
        choose|i: int| 0 <= i < ms.len() && ms[i].id == id
    } else {
        -1
    }
}

/// Position of the profile of `who`, or -1.
pub open spec fn profile_pos(ps: Seq<UserProfileView>, who: Seq<u8>) -> int {
    if exists|i: int| 0 <= i < ps.len() && ps[i].principal == who {
        choose|i: int| 0 <= i < ps.len() && ps[i].principal == who
    } else {
        -1
    }
}

/// Position of the cached insight for market `id`, or -1.
pub open spec fn insight_pos(xs: Seq<AIInsightView>, id: u64) -> int {
    if exists|i: int| 0 <= i < xs.len() && xs[i].market_id == id {
        choose|i: int| 0 <= i < xs.len() && xs[i].market_id == id
    } else {
        -1
    }
}

/// A newly created market.
pub open spec fn new_market_view(
    id: u64,
    title: Seq<char>,
    description: Seq<char>,
    category: Seq<char>,
    creator: Seq<u8>,
    close_date: u64,
    now: u64,
) -> MarketView {
    MarketView {
        id,
        title,
        description,
        category,
        creator,
        close_date,
        status: MarketStatus::PendingValidation,
        yes_shares: SEED_SHARES,
        no_shares: SEED_SHARES,
        yes_liquidity: SEED_LIQUIDITY,
        no_liquidity: SEED_LIQUIDITY,
        total_volume: 0,
        created_at: now,
        resolved_outcome: None,
    }
}

/// A market after a purchase of `amount` on one side: that side's shares and
/// liquidity and the volume grow by `amount`.
pub open spec fn after_purchase(m: MarketView, is_yes: bool, amount: u64) -> MarketView {
    if is_yes {
        MarketView {
            yes_shares: (m.yes_shares + amount) as u64,
            yes_liquidity: (m.yes_liquidity + amount) as u64,
            total_volume: (m.total_volume + amount) as u64,
            ..m
        }
    } else {
        MarketView {
            no_shares: (m.no_shares + amount) as u64,
            no_liquidity: (m.no_liquidity + amount) as u64,
            total_volume: (m.total_volume + amount) as u64,
            ..m
        }
    }
}

/// The profile created for a trader on their first trade.
pub open spec fn new_profile_view(who: Seq<u8>, now: u64) -> UserProfileView {
    UserProfileView {
        principal: who,
        username: username_of_text(principal_text_of(who)),
        xp: 0,
        total_trades: 0,
        successful_predictions: 0,
        badges: Seq::empty(),
        created_at: now,
    }
}

/// A profile after one more trade of `amount`.
pub open spec fn credited(p: UserProfileView, amount: u64) -> UserProfileView {
    UserProfileView {
        xp: (p.xp + amount / XP_DIVISOR) as u64,
        total_trades: (p.total_trades + 1) as u64,
        ..p
    }
}

/// The profiles after `who` traded `amount` at `now`: their profile is
/// credited, and created first if absent.
pub open spec fn upsert_profiles(
    ps: Seq<UserProfileView>,
    who: Seq<u8>,
    amount: u64,
    now: u64,
) -> Seq<UserProfileView> {
    let k = profile_pos(ps, who);
    if k >= 0 {
        ps.update(k, credited(ps[k], amount))
    } else {
        ps.push(credited(new_profile_view(who, now), amount))
    }
}

/// The cached insights after `x` is stored, replacing any for its market.
pub open spec fn put_insight(xs: Seq<AIInsightView>, x: AIInsightView) -> Seq<AIInsightView> {
    let k = insight_pos(xs, x.market_id);
    if k >= 0 {
        xs.update(k, x)
    } else {
        xs.push(x)
    }
}

/// Whether an insight made at `generated_at` is still fresh at `now`.
pub open spec fn is_fresh(generated_at: u64, now: u64) -> bool {
    generated_at <= now && now - generated_at < INSIGHT_TTL
}

/// The entries of a trade log that belong to market `id`, in log order.
pub open spec fn trades_of(ts: Seq<TradeView>, id: u64) -> Seq<TradeView> {
    ts.filter(|t: TradeView| t.market_id == id)
}

/// The comments on market `id`, in the order they were made.
pub open spec fn comments_of(cs: Seq<MarketCommentView>, id: u64) -> Seq<MarketCommentView> {
    cs.filter(|c: MarketCommentView| c.market_id == id)
}

/// `idx` lists, best first, the positions of a leaderboard drawn from the
/// first `upto` profiles of `ps`: as many as fit, each at most once, in
/// non-increasing order of xp, and no profile left out has more xp than
/// one listed.
pub open spec fn ranks(ps: Seq<UserProfileView>, upto: int, idx: Seq<usize>) -> bool {
    &&& idx.len() == if upto < LEADERBOARD_SIZE { upto } else { LEADERBOARD_SIZE as int }
    &&& forall|k: int| 0 <= k < idx.len() ==> #[trigger] idx[k] < upto
    &&& forall|a: int, b: int| 0 <= a < b < idx.len() ==> #[trigger] idx[a] != #[trigger] idx[b]
    &&& forall|a: int, b: int|
        0 <= a < b < idx.len() ==> ps[#[trigger] idx[a] as int].xp >= ps[#[trigger] idx[b] as int].xp
    &&& forall|q: int, k: int|
        0 <= q < upto && !idx.contains(q as usize) && 0 <= k < idx.len() ==> #[trigger] ps[q].xp
            <= ps[#[trigger] idx[k] as int].xp
}

/// Whether `board` is a leaderboard of the profiles `ps`: the top twenty by
/// xp, best first, in some order among equals.
pub open spec fn is_leaderboard(ps: Seq<UserProfileView>, board: Seq<UserProfileView>) -> bool {
    exists|idx: Seq<usize>|
        ranks(ps, ps.len() as int, idx) && board == idx.map_values(|k: usize| ps[k as int])
}

/// The whole state of the service: every store, counter and the treasury.
pub struct Backend {
    pub markets: Vec<Market>,
    pub trades: Vec<Trade>,
    pub profiles: Vec<UserProfile>,
    pub insights: Vec<AIInsight>,
    pub comments: Vec<MarketComment>,
    pub next_market_id: u64,
    pub next_trade_id: u64,
    pub next_comment_id: u64,
    pub treasury: u64,
}

impl Backend {
    pub open spec fn markets_view(&self) -> Seq<MarketView> {
        self.markets@.map_values(|m: Market| m@)
    }

    pub open spec fn trades_view(&self) -> Seq<TradeView> {
        self.trades@.map_values(|t: Trade| t@)
    }

    pub open spec fn profiles_view(&self) -> Seq<UserProfileView> {
        self.profiles@.map_values(|p: UserProfile| p@)
    }

    pub open spec fn insights_view(&self) -> Seq<AIInsightView> {
        self.insights@.map_values(|x: AIInsight| x@)
    }

    pub open spec fn comments_view(&self) -> Seq<MarketCommentView> {
        self.comments@.map_values(|c: MarketComment| c@)
    }

    /// Whether a market has id `id`.
    pub open spec fn has_market(&self, id: u64) -> bool {
        exists|i: int| 0 <= i < self.markets@.len() && self.markets@[i].id == id
    }

    /// The market with id `id`, when there is one.
    pub open spec fn market(&self, id: u64) -> MarketView {
        self.markets_view()[market_pos(self.markets_view(), id)]
    }

    /// Whether the cache holds an insight for market `id`.
    pub open spec fn has_insight(&self, id: u64) -> bool {
        exists|i: int| 0 <= i < self.insights@.len() && self.insights@[i].market_id == id
    }

    /// The cached insight for market `id`, when there is one.
    pub open spec fn insight(&self, id: u64) -> AIInsightView {
        self.insights_view()[insight_pos(self.insights_view(), id)]
    }

    /// Whether the cache holds an insight for market `id` that is fresh at `now`.
    pub open spec fn has_fresh_insight(&self, id: u64, now: u64) -> bool {
        self.has_insight(id) && is_fresh(self.insight(id).generated_at, now)
    }

    /// The store's invariant: ids are unique, every id handed out lies below
    /// its counter, only resolved markets carry an outcome, and logs are in
    /// increasing id order; one profile per identity and one cached insight
    /// per market.
    pub open spec fn wf(&self) -> bool {
        &&& forall|i: int|
            0 <= i < self.markets@.len() ==> #[trigger] self.markets@[i].id < self.next_market_id
        &&& forall|i: int, j: int|
            0 <= i < j < self.markets@.len() ==> #[trigger] self.markets@[i].id
                != #[trigger] self.markets@[j].id
        &&& forall|i: int|
            0 <= i < self.markets@.len() ==> (#[trigger] self.markets@[i].resolved_outcome is Some
                <==> self.markets@[i].status == MarketStatus::Resolved)
        &&& forall|i: int|
            0 <= i < self.trades@.len() ==> #[trigger] self.trades@[i].id < self.next_trade_id
        &&& forall|i: int, j: int|
            0 <= i < j < self.trades@.len() ==> #[trigger] self.trades@[i].id
                < #[trigger] self.trades@[j].id
        &&& forall|i: int|
            0 <= i < self.comments@.len() ==> #[trigger] self.comments@[i].id
                < self.next_comment_id
        &&& forall|i: int, j: int|
            0 <= i < j < self.comments@.len() ==> #[trigger] self.comments@[i].id
                < #[trigger] self.comments@[j].id
        &&& forall|i: int, j: int|
            0 <= i < j < self.profiles@.len() ==> #[trigger] self.profiles@[i].principal@
                != #[trigger] self.profiles@[j].principal@
        &&& forall|i: int, j: int|
            0 <= i < j < self.insights@.len() ==> #[trigger] self.insights@[i].market_id
                != #[trigger] self.insights@[j].market_id
    }

    /// An empty service whose counters all start at 1.
    pub fn new() -> (r: Backend)
        ensures
            r.wf(),
            r.markets@.len() == 0,
            r.trades@.len() == 0,
            r.profiles@.len() == 0,
            r.insights@.len() == 0,
            r.comments@.len() == 0,
            r.next_market_id == 1,
            r.next_trade_id == 1,
            r.next_comment_id == 1,
            r.treasury == 0,
    {
        Backend {
            markets: Vec::new(),
            trades: Vec::new(),
            profiles: Vec::new(),
            insights: Vec::new(),
            comments: Vec::new(),
            next_market_id: 1,
            next_trade_id: 1,
            next_comment_id: 1,
            treasury: 0,
        }
    }

    /// Position of the market with id `id`.
    fn find_market(&self, id: u64) -> (r: Option<usize>)
        requires
            self.wf(),
        ensures
            r is Some <==> self.has_market(id),
            r matches Some(i) ==> i < self.markets@.len() && self.markets@[i as int].id == id
                && market_pos(self.markets_view(), id) == i,
    {
        let mut i: usize = 0;
        while i < self.markets.len()
            invariant
                self.wf(),
                i <= self.markets@.len(),
                forall|j: int| 0 <= j < i ==> self.markets@[j].id != id,
            decreases self.markets@.len() - i,
        {
            if self.markets[i].id == id {
                proof {
                    let ms = self.markets_view();
                    assert(ms[i as int].id == id);
                    let k = market_pos(ms, id);
                    assert(0 <= k < ms.len() && ms[k].id == id);
                    assert(self.markets@[k].id == id);
                    if k < i {
                        assert(self.markets@[k].id != self.markets@[i as int].id);
                    } else if k > i {
                        assert(self.markets@[i as int].id != self.markets@[k].id);
                    }
                }
                return Some(i);
            }
            i = i + 1;
        }
        None
    }

    /// Every market, in store order.
    pub fn get_markets(&self) -> (r: Vec<Market>)
        ensures
            r@.map_values(|m: Market| m@) == self.markets_view(),
    {
        let mut r: Vec<Market> = Vec::new();
        let mut i: usize = 0;
        while i < self.markets.len()
            invariant
                i <= self.markets@.len(),
                r@.len() == i,
                forall|j: int| 0 <= j < i ==> r@[j]@ == self.markets@[j]@,
            decreases self.markets@.len() - i,
        {
            r.push(self.markets[i].clone());
            i = i + 1;
        }
        assert(r@.map_values(|m: Market| m@) =~= self.markets_view());
        r
    }

    /// The market with id `id`, if there is one.
    pub fn get_market(&self, id: u64) -> (r: Option<Market>)
        requires
            self.wf(),
        ensures
            r is Some <==> self.has_market(id),
            r matches Some(m) ==> m@ == self.market(id),
    {
        match self.find_market(id) {
            Some(i) => Some(self.markets[i].clone()),
            None => None,
        }
    }

    /// Creates a market awaiting validation, with seed shares and liquidity
    /// on both sides; refused when the title or the description is empty.
    pub fn create_market(
        &mut self,
        title: String,
        description: String,
        category: String,
        close_date: u64,
        creator: Identity,
        now: u64,
    ) -> (r: Result<u64, ValidationError>)
        requires
            old(self).wf(),
            old(self).next_market_id < u64::MAX,
        ensures
            final(self).wf(),
            title@.len() == 0 || description@.len() == 0 ==> r == Err::<u64, ValidationError>(
                ValidationError::EmptyTitleOrDescription,
            ) && *final(self) == *old(self),
            title@.len() > 0 && description@.len() > 0 ==> {
                &&& r == Ok::<u64, ValidationError>(old(self).next_market_id)
                &&& final(self).next_market_id == old(self).next_market_id + 1
                &&& final(self).markets_view() == old(self).markets_view().push(
                    new_market_view(
                        old(self).next_market_id,
                        title@,
                        description@,
                        category@,
                        creator@,
                        close_date,
                        now,
                    ),
                )
                &&& final(self).trades == old(self).trades
                &&& final(self).profiles == old(self).profiles
                &&& final(self).insights == old(self).insights
                &&& final(self).comments == old(self).comments
                &&& final(self).next_trade_id == old(self).next_trade_id
                &&& final(self).next_comment_id == old(self).next_comment_id
                &&& final(self).treasury == old(self).treasury
            },
    {
        if title.as_str().unicode_len() == 0 || description.as_str().unicode_len() == 0 {
            return Err(ValidationError::EmptyTitleOrDescription);
        }
        let id = self.next_market_id;
        self.next_market_id = id + 1;
        let market = Market {
            id,
            title,
            description,
            category,
            creator,
            close_date,
            status: MarketStatus::PendingValidation,
            yes_shares: SEED_SHARES,
            no_shares: SEED_SHARES,
            yes_liquidity: SEED_LIQUIDITY,
            no_liquidity: SEED_LIQUIDITY,
            total_volume: 0,
            created_at: now,
            resolved_outcome: None,
        };
        self.markets.push(market);
        assert(self.markets_view() =~= old(self).markets_view().push(market@));
        Ok(id)
    }

    /// Position of the profile of `who`.
    fn find_profile(&self, who: &Identity) -> (r: Option<usize>)
        requires
            self.wf(),
        ensures
            r is Some <==> profile_pos(self.profiles_view(), who@) >= 0,
            r matches Some(k) ==> k < self.profiles@.len() && profile_pos(self.profiles_view(), who@)
                == k,
    {
        let ghost ps = self.profiles_view();
        let mut k: usize = 0;
        while k < self.profiles.len()
            invariant
                self.wf(),
                ps == self.profiles_view(),
                k <= self.profiles@.len(),
                forall|j: int| 0 <= j < k ==> self.profiles@[j].principal@ != who@,
            decreases self.profiles@.len() - k,
        {
            if self.profiles[k].principal.same(who) {
                proof {
                    assert(ps[k as int].principal == who@);
                    let q = profile_pos(ps, who@);
                    assert(0 <= q < ps.len() && ps[q].principal == who@);
                    assert(self.profiles@[q].principal@ == who@);
                    if q < k {
                        assert(self.profiles@[q].principal@ != self.profiles@[k as int].principal@);
                    } else if q > k {
                        assert(self.profiles@[k as int].principal@ != self.profiles@[q].principal@);
                    }
                }
                return Some(k);
            }
            k = k + 1;
        }
        proof {
            if exists|j: int| 0 <= j < ps.len() && ps[j].principal == who@ {
                let j = choose|j: int| 0 <= j < ps.len() && ps[j].principal == who@;
                assert(self.profiles@[j].principal@ == who@);
            }
        }
        None
    }

    /// Whether a purchase would keep every counter it touches within `u64`.
    pub open spec fn trade_fits(&self, market_id: u64, is_yes: bool, amount: u64, who: Seq<u8>) -> bool {
        &&& self.next_trade_id < u64::MAX
        &&& self.treasury + fee_of(amount as int) <= u64::MAX
        &&& self.has_market(market_id) ==> {
            let m = self.market(market_id);
            &&& is_yes ==> m.yes_shares + amount <= u64::MAX && m.yes_liquidity + amount <= u64::MAX
            &&& !is_yes ==> m.no_shares + amount <= u64::MAX && m.no_liquidity + amount <= u64::MAX
            &&& m.total_volume + amount <= u64::MAX
        }
        &&& profile_pos(self.profiles_view(), who) >= 0 ==> {
            let p = self.profiles_view()[profile_pos(self.profiles_view(), who)];
            &&& p.xp + amount / XP_DIVISOR <= u64::MAX
            &&& p.total_trades + 1 <= u64::MAX
        }
    }

    /// Whether a purchase would keep every counter it touches within `u64`;
    /// a caller tests this before `buy_shares`.
    pub fn check_trade_fits(&self, market_id: u64, is_yes: bool, amount: u64, who: &Identity) -> (r: bool)
        requires
            self.wf(),
        ensures
            r == self.trade_fits(market_id, is_yes, amount, who@),
    {
        if self.next_trade_id == u64::MAX {
            return false;
        }
        if self.treasury > u64::MAX - amount / 100 * FEE_PERCENT - (amount % 100) * FEE_PERCENT / 100 {
            return false;
        }
        match self.find_market(market_id) {
            Some(i) => {
                let m = &self.markets[i];
                if is_yes {
                    if m.yes_shares > u64::MAX - amount || m.yes_liquidity > u64::MAX - amount {
                        return false;
                    }
                } else {
                    if m.no_shares > u64::MAX - amount || m.no_liquidity > u64::MAX - amount {
                        return false;
                    }
                }
                if m.total_volume > u64::MAX - amount {
                    return false;
                }
            },
            None => {},
        }
        match self.find_profile(who) {
            Some(k) => {
                let p = &self.profiles[k];
                if p.xp > u64::MAX - amount / XP_DIVISOR || p.total_trades == u64::MAX {
                    return false;
                }
            },
            None => {},
        }
        true
    }

    /// Credits `who` with one trade of `amount`, creating their profile on
    /// their first trade.
    fn credit_trader(&mut self, who: Identity, amount: u64, now: u64)
        requires
            old(self).wf(),
            profile_pos(old(self).profiles_view(), who@) >= 0 ==> {
                let p = old(self).profiles_view()[profile_pos(old(self).profiles_view(), who@)];
                &&& p.xp + amount / XP_DIVISOR <= u64::MAX
                &&& p.total_trades + 1 <= u64::MAX
            },
        ensures
            final(self).wf(),
            final(self).profiles_view() == upsert_profiles(old(self).profiles_view(), who@, amount, now),
            final(self).markets == old(self).markets,
            final(self).trades == old(self).trades,
            final(self).insights == old(self).insights,
            final(self).comments == old(self).comments,
            final(self).next_market_id == old(self).next_market_id,
            final(self).next_trade_id == old(self).next_trade_id,
            final(self).next_comment_id == old(self).next_comment_id,
            final(self).treasury == old(self).treasury,
    {
        match self.find_profile(&who) {
            Some(k) => {
                let mut p = self.profiles[k].clone();
                p.xp = p.xp + amount / XP_DIVISOR;
                p.total_trades = p.total_trades + 1;
                let ghost pv = p@;
                self.profiles.set(k, p);
                proof {
                    assert(self.profiles_view() =~= old(self).profiles_view().update(k as int, pv));
                    assert forall|i: int, j: int|
                        0 <= i < j < self.profiles@.len() implies #[trigger] self.profiles@[i].principal@
                        != #[trigger] self.profiles@[j].principal@ by {
                        assert(old(self).profiles@[i].principal@ != old(self).profiles@[j].principal@);
                    }
                }
            },
            None => {
                let username = who.username();
                let p = UserProfile {
                    principal: who,
                    username,
                    xp: amount / XP_DIVISOR,
                    total_trades: 1,
                    successful_predictions: 0,
                    badges: Vec::new(),
                    created_at: now,
                };
                let ghost pv = p@;
                self.profiles.push(p);
                proof {
                    assert(pv.badges =~= Seq::<Seq<char>>::empty());
                    assert(self.profiles_view() =~= old(self).profiles_view().push(pv));
                    assert forall|i: int, j: int|
                        0 <= i < j < self.profiles@.len() implies #[trigger] self.profiles@[i].principal@
                        != #[trigger] self.profiles@[j].principal@ by {
                        if j < old(self).profiles@.len() {
                            assert(old(self).profiles@[i].principal@ != old(self).profiles@[j].principal@);
                        } else {
                            assert(old(self).profiles_view()[i].principal != who@);
                        }
                    }
                }
            },
        }
    }

    /// Buys `amount` shares on one side of an active market for `trader` at
    /// time `now`: prices the purchase on the shares held before it, grows
    /// that side and the volume, collects the fee, logs the trade and
    /// credits the trader. Refused, with nothing changed, on a zero amount,
    /// an unknown market or one that is not active.
    pub fn buy_shares(
        &mut self,
        market_id: u64,
        is_yes: bool,
        amount: u64,
        trader: Identity,
        now: u64,
    ) -> (r: Result<Trade, TradeError>)
        requires
            old(self).wf(),
            old(self).trade_fits(market_id, is_yes, amount, trader@),
        ensures
            final(self).wf(),
            amount == 0 ==> r == Err::<Trade, TradeError>(TradeError::InvalidAmount) && *final(self)
                == *old(self),
            amount > 0 && !old(self).has_market(market_id) ==> r == Err::<Trade, TradeError>(
                TradeError::NotFound,
            ) && *final(self) == *old(self),
            amount > 0 && old(self).has_market(market_id) && old(self).market(market_id).status
                != MarketStatus::Active ==> r == Err::<Trade, TradeError>(
                TradeError::MarketNotActive,
            ) && *final(self) == *old(self),
            amount > 0 && old(self).has_market(market_id) && old(self).market(market_id).status
                == MarketStatus::Active ==> {
                let m = old(self).market(market_id);
                let pos = market_pos(old(self).markets_view(), market_id);
                &&& r is Ok
                &&& r->Ok_0@ == (TradeView {
                    id: old(self).next_trade_id,
                    market_id,
                    trader: trader@,
                    is_yes,
                    shares: amount,
                    price: price_of(
                        m.yes_shares as int,
                        m.no_shares as int,
                        is_yes,
                        amount as int,
                    ) as u64,
                    timestamp: now,
                })
                &&& final(self).markets_view() == old(self).markets_view().update(
                    pos,
                    after_purchase(m, is_yes, amount),
                )
                &&& final(self).trades_view() == old(self).trades_view().push(r->Ok_0@)
                &&& final(self).treasury == old(self).treasury + fee_of(amount as int)
                &&& final(self).next_trade_id == old(self).next_trade_id + 1
                &&& final(self).profiles_view() == upsert_profiles(
                    old(self).profiles_view(),
                    trader@,
                    amount,
                    now,
                )
                &&& final(self).insights == old(self).insights
                &&& final(self).comments == old(self).comments
                &&& final(self).next_market_id == old(self).next_market_id
                &&& final(self).next_comment_id == old(self).next_comment_id
            },
    {
        if amount == 0 {
            return Err(TradeError::InvalidAmount);
        }
        let i = match self.find_market(market_id) {
            Some(i) => i,
            None => {
                return Err(TradeError::NotFound);
            },
        };
        if self.markets[i].status != MarketStatus::Active {
            return Err(TradeError::MarketNotActive);
        }
        let ghost mv = self.markets_view()[i as int];
        let mut m = self.markets[i].clone();
        let price = calculate_price(m.yes_shares, m.no_shares, is_yes, amount);
        if is_yes {
            m.yes_shares = m.yes_shares + amount;
            m.yes_liquidity = m.yes_liquidity + amount;
        } else {
            m.no_shares = m.no_shares + amount;
            m.no_liquidity = m.no_liquidity + amount;
        }
        m.total_volume = m.total_volume + amount;
        assert(m@ == after_purchase(mv, is_yes, amount));
        self.markets.set(i, m);
        proof {
            assert(self.markets_view() =~= old(self).markets_view().update(
                i as int,
                after_purchase(mv, is_yes, amount),
            ));
            assert forall|a: int, b: int|
                0 <= a < b < self.markets@.len() implies #[trigger] self.markets@[a].id
                != #[trigger] self.markets@[b].id by {
                assert(old(self).markets@[a].id != old(self).markets@[b].id);
            }
            assert forall|a: int|
                0 <= a < self.markets@.len() implies #[trigger] self.markets@[a].id
                < self.next_market_id by {
                assert(old(self).markets@[a].id < self.next_market_id);
            }
        }
        let fee = amount / 100 * FEE_PERCENT + (amount % 100) * FEE_PERCENT / 100;
        assert(fee == fee_of(amount as int));
        self.treasury = self.treasury + fee;
        let trade_id = self.next_trade_id;
        self.next_trade_id = trade_id + 1;
        let trade = Trade {
            id: trade_id,
            market_id,
            trader: trader.clone(),
            is_yes,
            shares: amount,
            price,
            timestamp: now,
        };
        let logged = trade.clone();
        self.trades.push(logged);
        proof {
            assert(self.trades_view() =~= old(self).trades_view().push(trade@));
        }
        self.credit_trader(trader, amount, now);
        Ok(trade)
    }

    /// The trades made on market `market_id`, in the order they were made.
    pub fn get_market_trades(&self, market_id: u64) -> (r: Vec<Trade>)
        ensures
            r@.map_values(|t: Trade| t@) == trades_of(self.trades_view(), market_id),
    {
        let ghost all = self.trades_view();
        let mut r: Vec<Trade> = Vec::new();
        let mut i: usize = 0;
        while i < self.trades.len()
            invariant
                all == self.trades_view(),
                i <= self.trades@.len(),
                r@.map_values(|t: Trade| t@) == trades_of(all.take(i as int), market_id),
            decreases self.trades@.len() - i,
        {
            proof {
                let next = all.take(i + 1);
                assert(next.drop_last() =~= all.take(i as int));
                assert(next.last() == self.trades@[i as int]@);
                reveal(Seq::filter);
            }
            if self.trades[i].market_id == market_id {
                let ghost before = r@;
                r.push(self.trades[i].clone());
                assert(r@.map_values(|t: Trade| t@) =~= before.map_values(|t: Trade| t@).push(
                    self.trades@[i as int]@,
                ));
            }
            i = i + 1;
        }
        assert(all.take(self.trades@.len() as int) =~= all);
        r
    }

    /// Adds a comment by `author` on market `market_id` at time `now`;
    /// refused, with nothing changed, when the content is empty or longer
    /// than 500 characters. The market is not required to exist.
    pub fn add_comment(&mut self, market_id: u64, content: String, author: Identity, now: u64) -> (r:
        Result<u64, ValidationError>)
        requires
            old(self).wf(),
            old(self).next_comment_id < u64::MAX,
        ensures
            final(self).wf(),
            content@.len() == 0 || content@.len() > MAX_COMMENT_CHARS ==> r == Err::<
                u64,
                ValidationError,
            >(ValidationError::CommentLength) && *final(self) == *old(self),
            0 < content@.len() <= MAX_COMMENT_CHARS ==> {
                &&& r == Ok::<u64, ValidationError>(old(self).next_comment_id)
                &&& final(self).next_comment_id == old(self).next_comment_id + 1
                &&& final(self).comments_view() == old(self).comments_view().push(
                    MarketCommentView {
                        id: old(self).next_comment_id,
                        market_id,
                        author: author@,
                        content: content@,
                        timestamp: now,
                    },
                )
                &&& final(self).markets == old(self).markets
                &&& final(self).trades == old(self).trades
                &&& final(self).profiles == old(self).profiles
                &&& final(self).insights == old(self).insights
                &&& final(self).next_market_id == old(self).next_market_id
                &&& final(self).next_trade_id == old(self).next_trade_id
                &&& final(self).treasury == old(self).treasury
            },
    {
        let n = content.as_str().unicode_len();
        if n == 0 || n > MAX_COMMENT_CHARS {
            return Err(ValidationError::CommentLength);
        }
        let id = self.next_comment_id;
        self.next_comment_id = id + 1;
        let comment = MarketComment { id, market_id, author, content, timestamp: now };
        let ghost cv = comment@;
        self.comments.push(comment);
        assert(self.comments_view() =~= old(self).comments_view().push(cv));
        Ok(id)
    }

    /// The comments on market `market_id`, in the order they were made.
    pub fn get_market_comments(&self, market_id: u64) -> (r: Vec<MarketComment>)
        ensures
            r@.map_values(|c: MarketComment| c@) == comments_of(self.comments_view(), market_id),
    {
        let ghost all = self.comments_view();
        let mut r: Vec<MarketComment> = Vec::new();
        let mut i: usize = 0;
        while i < self.comments.len()
            invariant
                all == self.comments_view(),
                i <= self.comments@.len(),
                r@.map_values(|c: MarketComment| c@) == comments_of(all.take(i as int), market_id),
            decreases self.comments@.len() - i,
        {
            proof {
                let next = all.take(i + 1);
                assert(next.drop_last() =~= all.take(i as int));
                assert(next.last() == self.comments@[i as int]@);
                reveal(Seq::filter);
            }
            if self.comments[i].market_id == market_id {
                let ghost before = r@;
                r.push(self.comments[i].clone());
                assert(r@.map_values(|c: MarketComment| c@) =~= before.map_values(
                    |c: MarketComment| c@,
                ).push(self.comments@[i as int]@));
            }
            i = i + 1;
        }
        assert(all.take(self.comments@.len() as int) =~= all);
        r
    }

    /// The profile of `who`, if they have traded.
    pub fn get_user_profile(&self, who: &Identity) -> (r: Option<UserProfile>)
        requires
            self.wf(),
        ensures
            r is Some <==> profile_pos(self.profiles_view(), who@) >= 0,
            r matches Some(p) ==> p@ == self.profiles_view()[profile_pos(self.profiles_view(), who@)],
    {
        match self.find_profile(who) {
            Some(k) => Some(self.profiles[k].clone()),
            None => None,
        }
    }

    /// The fees collected so far.
    pub fn get_treasury_balance(&self) -> (r: u64)
        ensures
            r == self.treasury,
    {
        self.treasury
    }

    /// Position of the cached insight for market `id`.
    fn find_insight(&self, id: u64) -> (r: Option<usize>)
        requires
            self.wf(),
        ensures
            r is Some <==> self.has_insight(id),
            r matches Some(k) ==> k < self.insights@.len() && insight_pos(self.insights_view(), id)
                == k,
    {
        let ghost xs = self.insights_view();
        let mut k: usize = 0;
        while k < self.insights.len()
            invariant
                self.wf(),
                xs == self.insights_view(),
                k <= self.insights@.len(),
                forall|j: int| 0 <= j < k ==> self.insights@[j].market_id != id,
            decreases self.insights@.len() - k,
        {
            if self.insights[k].market_id == id {
                proof {
                    assert(xs[k as int].market_id == id);
                    let q = insight_pos(xs, id);
                    assert(0 <= q < xs.len() && xs[q].market_id == id);
                    assert(self.insights@[q].market_id == id);
                    if q < k {
                        assert(self.insights@[q].market_id != self.insights@[k as int].market_id);
                    } else if q > k {
                        assert(self.insights@[k as int].market_id != self.insights@[q].market_id);
                    }
                }
                return Some(k);
            }
            k = k + 1;
        }
        None
    }

    /// The cached insight for market `market_id`, if one is fresh at `now`.
    pub fn fresh_insight(&self, market_id: u64, now: u64) -> (r: Option<AIInsight>)
        requires
            self.wf(),
        ensures
            r is Some <==> self.has_fresh_insight(market_id, now),
            r matches Some(x) ==> x@ == self.insight(market_id),
    {
        match self.find_insight(market_id) {
            Some(k) => {
                let g = self.insights[k].generated_at;
                if g <= now && now - g < INSIGHT_TTL {
                    Some(self.insights[k].clone())
                } else {
                    None
                }
            },
            None => None,
        }
    }

    /// Caches `insight` for its market, replacing any earlier one.
    pub fn store_insight(&mut self, insight: AIInsight)
        requires
            old(self).wf(),
        ensures
            final(self).wf(),
            final(self).insights_view() == put_insight(old(self).insights_view(), insight@),
            final(self).markets == old(self).markets,
            final(self).trades == old(self).trades,
            final(self).profiles == old(self).profiles,
            final(self).comments == old(self).comments,
            final(self).next_market_id == old(self).next_market_id,
            final(self).next_trade_id == old(self).next_trade_id,
            final(self).next_comment_id == old(self).next_comment_id,
            final(self).treasury == old(self).treasury,
    {
        let ghost xv = insight@;
        match self.find_insight(insight.market_id) {
            Some(k) => {
                self.insights.set(k, insight);
                proof {
                    assert(self.insights_view() =~= old(self).insights_view().update(k as int, xv));
                    assert forall|i: int, j: int|
                        0 <= i < j < self.insights@.len() implies #[trigger] self.insights@[i].market_id
                        != #[trigger] self.insights@[j].market_id by {
                        assert(old(self).insights@[i].market_id != old(self).insights@[j].market_id);
                        if i == k {
                            assert(old(self).insights@[k as int].market_id == xv.market_id);
                        }
                        if j == k {
                            assert(old(self).insights@[k as int].market_id == xv.market_id);
                        }
                    }
                }
            },
            None => {
                self.insights.push(insight);
                proof {
                    assert(self.insights_view() =~= old(self).insights_view().push(xv));
                    assert forall|i: int, j: int|
                        0 <= i < j < self.insights@.len() implies #[trigger] self.insights@[i].market_id
                        != #[trigger] self.insights@[j].market_id by {
                        if j < old(self).insights@.len() {
                            assert(old(self).insights@[i].market_id != old(self).insights@[j].market_id);
                        } else {
                            assert(old(self).insights_view()[i].market_id != xv.market_id);
                        }
                    }
                }
            },
        }
    }

    /// The insight for market `market_id` at time `now`: the cached one while
    /// it is fresh; otherwise, for a known market, one generated locally from
    /// its title, which is cached and returned; for an unknown market, none.
    pub fn get_ai_insight(&mut self, market_id: u64, now: u64) -> (r: Option<AIInsight>)
        requires
            old(self).wf(),
        ensures
            final(self).wf(),
            old(self).has_fresh_insight(market_id, now) ==> r is Some && r->Some_0@ == old(
                self,
            ).insight(market_id) && *final(self) == *old(self),
            !old(self).has_fresh_insight(market_id, now) && !old(self).has_market(market_id) ==> r
                is None && *final(self) == *old(self),
            !old(self).has_fresh_insight(market_id, now) && old(self).has_market(market_id) ==> {
                let x = AIInsightView {
                    market_id,
                    summary: template_summary(old(self).market(market_id).title),
                    confidence_permille: 750,
                    risks: template_risks(),
                    prediction_lean: Some(true),
                    generated_at: now,
                };
                &&& r is Some
                &&& r->Some_0@ == x
                &&& final(self).insights_view() == put_insight(old(self).insights_view(), x)
                &&& final(self).markets == old(self).markets
                &&& final(self).trades == old(self).trades
                &&& final(self).profiles == old(self).profiles
                &&& final(self).comments == old(self).comments
                &&& final(self).next_market_id == old(self).next_market_id
                &&& final(self).next_trade_id == old(self).next_trade_id
                &&& final(self).next_comment_id == old(self).next_comment_id
                &&& final(self).treasury == old(self).treasury
            },
    {
        if let Some(x) = self.fresh_insight(market_id, now) {
            return Some(x);
        }
        let i = match self.find_market(market_id) {
            Some(i) => i,
            None => {
                return None;
            },
        };
        let x = template_insight(market_id, self.markets[i].title.as_str(), now);
        let stored = x.clone();
        self.store_insight(stored);
        Some(x)
    }

    /// Moves market `market_id` one step along its lifecycle: pending to
    /// active on approval, active to closed, closed to resolved with an
    /// outcome. Any other step, or an unknown market, is refused with
    /// nothing changed.
    pub fn change_status(&mut self, market_id: u64, change: StatusChange) -> (r: Result<(), TransitionError>)
        requires
            old(self).wf(),
        ensures
            final(self).wf(),
            !old(self).has_market(market_id) ==> r == Err::<(), TransitionError>(TransitionError::NotFound)
                && *final(self) == *old(self),
            old(self).has_market(market_id) && next_status(old(self).market(market_id).status, change)
                is None ==> r == Err::<(), TransitionError>(TransitionError::NotAllowed) && *final(self)
                == *old(self),
            old(self).has_market(market_id) && next_status(old(self).market(market_id).status, change)
                is Some ==> {
                &&& r == Ok::<(), TransitionError>(())
                &&& final(self).markets_view() == old(self).markets_view().update(
                    market_pos(old(self).markets_view(), market_id),
                    after_change(old(self).market(market_id), change),
                )
                &&& final(self).trades == old(self).trades
                &&& final(self).profiles == old(self).profiles
                &&& final(self).insights == old(self).insights
                &&& final(self).comments == old(self).comments
                &&& final(self).next_market_id == old(self).next_market_id
                &&& final(self).next_trade_id == old(self).next_trade_id
                &&& final(self).next_comment_id == old(self).next_comment_id
                &&& final(self).treasury == old(self).treasury
            },
    {
        let i = match self.find_market(market_id) {
            Some(i) => i,
            None => {
                return Err(TransitionError::NotFound);
            },
        };
        let ghost mv = self.markets_view()[i as int];
        let mut m = self.markets[i].clone();
        match (m.status, change) {
            (MarketStatus::PendingValidation, StatusChange::Approve) => {
                m.status = MarketStatus::Active;
            },
            (MarketStatus::Active, StatusChange::Close) => {
                m.status = MarketStatus::Closed;
            },
            (MarketStatus::Closed, StatusChange::Resolve(outcome)) => {
                m.status = MarketStatus::Resolved;
                m.resolved_outcome = Some(outcome);
            },
            _ => {
                return Err(TransitionError::NotAllowed);
            },
        }
        assert(m@ == after_change(mv, change));
        self.markets.set(i, m);
        proof {
            assert(self.markets_view() =~= old(self).markets_view().update(
                i as int,
                after_change(mv, change),
            ));
            assert forall|a: int, b: int|
                0 <= a < b < self.markets@.len() implies #[trigger] self.markets@[a].id
                != #[trigger] self.markets@[b].id by {
                assert(old(self).markets@[a].id != old(self).markets@[b].id);
            }
            assert forall|a: int|
                0 <= a < self.markets@.len() implies #[trigger] self.markets@[a].id
                < self.next_market_id by {
                assert(old(self).markets@[a].id < self.next_market_id);
            }
            assert forall|a: int|
                0 <= a < self.markets@.len() implies (#[trigger] self.markets@[a].resolved_outcome is Some
                <==> self.markets@[a].status == MarketStatus::Resolved) by {
                if a != i {
                    assert(old(self).markets@[a] == self.markets@[a]);
                }
            }
        }
        Ok(())
    }

    /// Positions of the profiles on the leaderboard, best first.
    fn leaderboard_positions(&self) -> (r: Vec<usize>)
        ensures
            ranks(self.profiles_view(), self.profiles@.len() as int, r@),
    {
        let ghost ps = self.profiles_view();
        let n = self.profiles.len();
        let mut top: Vec<usize> = Vec::new();
        let mut j: usize = 0;
        while j < n
            invariant
                ps == self.profiles_view(),
                n == self.profiles@.len(),
                j <= n,
                ranks(ps, j as int, top@),
                top@.len() < LEADERBOARD_SIZE ==> forall|q: int|
                    0 <= q < j ==> #[trigger] top@.contains(q as usize),
            decreases n - j,
        {
            let xp = self.profiles[j].xp;
            let mut p: usize = 0;
            while p < top.len() && self.profiles[top[p]].xp >= xp
                invariant
                    ps == self.profiles_view(),
                    n == self.profiles@.len(),
                    j < n,
                    xp == ps[j as int].xp,
                    ranks(ps, j as int, top@),
                    p <= top@.len(),
                    forall|k: int| 0 <= k < p ==> ps[#[trigger] top@[k] as int].xp >= xp,
                decreases top@.len() - p,
            {
                p = p + 1;
            }
            let ghost old_top = top@;
            proof {
                old_top.insert_ensures(p as int, j);
            }
            top.insert(p, j);
            if top.len() > LEADERBOARD_SIZE {
                top.pop();
            }
            proof {
                lemma_leaderboard_step(ps, j as int, old_top, p as int, top@);
            }
            j = j + 1;
        }
        top
    }

    /// The twenty profiles with the most xp, best first; equal xp in any order.
    pub fn get_leaderboard(&self) -> (r: Vec<UserProfile>)
        ensures
            is_leaderboard(self.profiles_view(), r@.map_values(|p: UserProfile| p@)),
    {
        let idx = self.leaderboard_positions();
        let ghost ps = self.profiles_view();
        let mut r: Vec<UserProfile> = Vec::new();
        let mut k: usize = 0;
        while k < idx.len()
            invariant
                ps == self.profiles_view(),
                ranks(ps, self.profiles@.len() as int, idx@),
                k <= idx@.len(),
                r@.len() == k,
                forall|a: int| 0 <= a < k ==> #[trigger] r@[a]@ == ps[idx@[a] as int],
            decreases idx@.len() - k,
        {
            r.push(self.profiles[idx[k]].clone());
            k = k + 1;
        }
        assert(r@.map_values(|p: UserProfile| p@) =~= idx@.map_values(|i: usize| ps[i as int]));
        assert(ranks(ps, ps.len() as int, idx@) && r@.map_values(|p: UserProfile| p@)
            == idx@.map_values(|i: usize| ps[i as int]));
        r
    }
}

/// Time at which the preseeded markets were created.
pub const SEED_CREATED_AT: u64 = 1737273600;

/// An active market seeded at start-up by the anonymous identity.
fn seeded_market(
    id: u64,
    title: &str,
    description: &str,
    category: &str,
    close_date: u64,
    yes_shares: u64,
    no_shares: u64,
    total_volume: u64,
) -> (r: Market)
    requires
        yes_shares <= 1000,
        no_shares <= 1000,
    ensures
        r@ == (MarketView {
            id,
            title: title@,
            description: description@,
            category: category@,
            creator: seq![4u8],
            close_date,
            status: MarketStatus::Active,
            yes_shares,
            no_shares,
            yes_liquidity: (yes_shares * 10) as u64,
            no_liquidity: (no_shares * 10) as u64,
            total_volume,
            created_at: SEED_CREATED_AT,
            resolved_outcome: None,
        }),
{
    Market {
        id,
        title: String::from_str(title),
        description: String::from_str(description),
        category: String::from_str(category),
        creator: Identity::anonymous(),
        close_date,
        status: MarketStatus::Active,
        yes_shares,
        no_shares,
        yes_liquidity: yes_shares * 10,
        no_liquidity: no_shares * 10,
        total_volume,
        created_at: SEED_CREATED_AT,
        resolved_outcome: None,
    }
}

/// An insight seeded at start-up.
fn seeded_insight(
    market_id: u64,
    summary: &str,
    confidence_permille: u64,
    risks: [&str; 3],
    prediction_lean: bool,
    generated_at: u64,
) -> (r: AIInsight)
    ensures
        r.market_id == market_id,
        r.summary@ == summary@,
        r.confidence_permille == confidence_permille,
        r.risks@.len() == 3,
        r.prediction_lean == Some(prediction_lean),
        r.generated_at == generated_at,
{
    AIInsight {
        market_id,
        summary: String::from_str(summary),
        confidence_permille,
        risks: vec![
            String::from_str(risks[0]),
            String::from_str(risks[1]),
            String::from_str(risks[2]),
        ],
        prediction_lean: Some(prediction_lean),
        generated_at,
    }
}

/// Inserting profile `j` after the entries with at least its xp, then
/// dropping the entry past the twentieth, keeps a leaderboard.
proof fn lemma_leaderboard_step(ps: Seq<UserProfileView>, j: int, old_top: Seq<usize>, p: int, nt: Seq<usize>)
    requires
        0 <= j < ps.len(),
        j < usize::MAX,
        ranks(ps, j, old_top),
        old_top.len() < LEADERBOARD_SIZE ==> forall|q: int|
            0 <= q < j ==> #[trigger] old_top.contains(q as usize),
        0 <= p <= old_top.len(),
        forall|k: int| 0 <= k < p ==> ps[#[trigger] old_top[k] as int].xp >= ps[j].xp,
        nt == (if old_top.insert(p, j as usize).len() > LEADERBOARD_SIZE {
            old_top.insert(p, j as usize).drop_last()
        } else {
            old_top.insert(p, j as usize)
        }),
        p < old_top.len() ==> ps[old_top[p] as int].xp < ps[j].xp,
    ensures
        ranks(ps, j + 1, nt),
        nt.len() < LEADERBOARD_SIZE ==> forall|q: int|
            0 <= q < j + 1 ==> #[trigger] nt.contains(q as usize),
{
    let xp = ps[j].xp;
    let ins = old_top.insert(p, j as usize);
    old_top.insert_ensures(p, j as usize);
    if p < old_top.len() {
        assert forall|k: int| p <= k < old_top.len() implies ps[#[trigger] old_top[k] as int].xp < xp by {
            if k > p {
                assert(ps[old_top[p] as int].xp >= ps[old_top[k] as int].xp);
            }
        }
    }
    assert(nt.len() <= ins.len());
    assert forall|k: int| 0 <= k < nt.len() implies nt[k] == ins[k] by {}
    // a position of the new list comes from the old list or is j
    assert forall|k: int| 0 <= k < ins.len() implies (k == p && #[trigger] ins[k] == j as usize) || (k < p
        && ins[k] == old_top[k]) || (k > p && ins[k] == old_top[k - 1]) by {
        if k > p {
            assert(ins[(k - 1) + 1] == old_top[k - 1]);
        }
    }
    assert forall|k: int| 0 <= k < nt.len() implies #[trigger] nt[k] < j + 1 by {
        assert(nt[k] == ins[k]);
    }
    assert forall|a: int, b: int| 0 <= a < b < nt.len() implies #[trigger] nt[a]
        != #[trigger] nt[b] by {
        assert(nt[a] == ins[a] && nt[b] == ins[b]);
        if a == p {
            assert(ins[b] == old_top[b - 1]);
            assert(old_top[b - 1] < j);
        } else if b == p {
            assert(ins[a] == old_top[a]);
            assert(old_top[a] < j);
        } else {
            let a0 = if a < p { a } else { a - 1 };
            let b0 = if b < p { b } else { b - 1 };
            assert(ins[a] == old_top[a0]);
            assert(ins[b] == old_top[b0]);
            assert(old_top[a0] != old_top[b0]);
        }
    }
    assert forall|a: int, b: int| 0 <= a < b < nt.len() implies ps[#[trigger] nt[a] as int].xp
        >= ps[#[trigger] nt[b] as int].xp by {
        assert(nt[a] == ins[a] && nt[b] == ins[b]);
        if a == p {
            assert(ins[b] == old_top[b - 1]);
            assert(ps[old_top[b - 1] as int].xp < xp);
        } else if b == p {
            assert(ins[a] == old_top[a]);
            assert(ps[old_top[a] as int].xp >= xp);
        } else {
            let a0 = if a < p { a } else { a - 1 };
            let b0 = if b < p { b } else { b - 1 };
            assert(ins[a] == old_top[a0]);
            assert(ins[b] == old_top[b0]);
            if a0 < b0 {
                assert(ps[old_top[a0] as int].xp >= ps[old_top[b0] as int].xp);
            }
        }
    }
    let popped = ins.len() > LEADERBOARD_SIZE;
    assert forall|q: int, k: int|
        0 <= q < j + 1 && !nt.contains(q as usize) && 0 <= k < nt.len() implies #[trigger] ps[q].xp
        <= ps[#[trigger] nt[k] as int].xp by {
        assert(nt[k] == ins[k]);
        let e = ins[k];
        // the listed entry's xp bounds
        if q == j {
            // j was dropped, so it was inserted last and the old list stands
            if p < ins.len() - 1 || !popped {
                assert(nt[p] == j as usize);
            }
            assert(k < p);
            assert(ins[k] == old_top[k]);
        } else if old_top.contains(q as usize) {
            // q was the old last entry, dropped
            let w = choose|w: int| 0 <= w < old_top.len() && old_top[w] == q as usize;
            if w < p {
                assert(nt[w] == q as usize);
            } else if w + 1 < nt.len() {
                assert(ins[w + 1] == old_top[w]);
                assert(nt[w + 1] == q as usize);
            }
            assert(popped && w + 1 == ins.len() - 1 && w == old_top.len() - 1);
            assert(p < old_top.len());
            assert(ps[old_top[p] as int].xp < xp);
            if p < w {
                assert(ps[old_top[p] as int].xp >= ps[old_top[w] as int].xp);
            }
            if k == p {
            } else if k < p {
                assert(ins[k] == old_top[k]);
                assert(ps[old_top[k] as int].xp >= ps[old_top[w] as int].xp);
            } else {
                assert(ins[k] == old_top[k - 1]);
                if k - 1 < w {
                    assert(ps[old_top[k - 1] as int].xp >= ps[old_top[w] as int].xp);
                }
            }
        } else {
            // q was already left out, so the old list was full
            if old_top.len() < LEADERBOARD_SIZE {
                assert(old_top.contains(q as usize));
            }
            if k == p {
                assert(p < old_top.len()) by {
                    if p == old_top.len() {
                        assert(popped);
                    }
                }
                assert(ps[q].xp <= ps[old_top[p] as int].xp);
            } else if k < p {
                assert(ins[k] == old_top[k]);
                assert(ps[q].xp <= ps[old_top[k] as int].xp);
            } else {
                assert(ins[k] == old_top[k - 1]);
                assert(ps[q].xp <= ps[old_top[k - 1] as int].xp);
            }
        }
    }
    if nt.len() < LEADERBOARD_SIZE {
        assert forall|q: int| 0 <= q < j + 1 implies #[trigger] nt.contains(q as usize) by {
            assert(!popped);
            if q == j {
                assert(nt[p] == j as usize);
            } else {
                assert(old_top.contains(q as usize));
                let w = choose|w: int| 0 <= w < old_top.len() && old_top[w] == q as usize;
                if w < p {
                    assert(nt[w] == q as usize);
                } else {
                    assert(ins[w + 1] == old_top[w]);
                    assert(nt[w + 1] == q as usize);
                }
            }
        }
    }

}

impl Backend {
    /// The service as it starts: three active sample markets with ids 1 to
    /// 3, a cached insight for each, and the next market id 4.
    pub fn init() -> (r: Backend)
        ensures
            r.wf(),
            r.markets@.len() == 3,
            r.markets@[0].id == 1 && r.markets@[1].id == 2 && r.markets@[2].id == 3,
            forall|i: int| 0 <= i < 3 ==> (#[trigger] r.markets@[i]).status == MarketStatus::Active,
            r.markets@[0].yes_shares == 450 && r.markets@[0].no_shares == 550,
            r.markets@[0].yes_liquidity == 4500 && r.markets@[0].no_liquidity == 5500,
            r.markets@[0].total_volume == 2500,
            r.markets@[1].yes_shares == 600 && r.markets@[1].no_shares == 400,
            r.markets@[1].yes_liquidity == 6000 && r.markets@[1].no_liquidity == 4000,
            r.markets@[1].total_volume == 1800,
            r.markets@[2].yes_shares == 300 && r.markets@[2].no_shares == 700,
            r.markets@[2].yes_liquidity == 3000 && r.markets@[2].no_liquidity == 7000,
            r.markets@[2].total_volume == 1200,
            r.insights@.len() == 3,
            r.insights@[0].market_id == 1 && r.insights@[1].market_id == 2
                && r.insights@[2].market_id == 3,
            r.trades@.len() == 0,
            r.profiles@.len() == 0,
            r.comments@.len() == 0,
            r.next_market_id == 4,
            r.next_trade_id == 1,
            r.next_comment_id == 1,
            r.treasury == 0,
    {
        let mut b = Backend::new();
        b.markets.push(
            seeded_market(
                1,
                "Will Bitcoin reach $150,000 by end of 2025?",
                "This market resolves to YES if Bitcoin (BTC) reaches or exceeds $150,000 USD by December 31, 2025.",
                "Cryptocurrency",
                1767225600,
                450,
                550,
                2500,
            ),
        );
        b.markets.push(
            seeded_market(
                2,
                "Will OpenAI release GPT-5 in 2025?",
                "This market resolves to YES if OpenAI officially releases a model called GPT-5 during 2025.",
                "Technology",
                1767292799,
                600,
                400,
                1800,
            ),
        );
        b.markets.push(
            seeded_market(
                3,
                "Will Tesla stock reach $500 by Q2 2025?",
                "This market resolves to YES if Tesla (TSLA) stock price reaches or exceeds $500 USD before June 30, 2025.",
                "Finance",
                1767292799,
                300,
                700,
                1200,
            ),
        );
        b.insights.push(
            seeded_insight(
                1,
                "Bitcoin has shown strong institutional adoption and macroeconomic factors favor crypto. However, regulatory uncertainty remains a risk.",
                720,
                ["Regulatory crackdowns", "Market volatility", "Macro economic shifts"],
                true,
                1767292799,
            ),
        );
        b.insights.push(
            seeded_insight(
                2,
                "OpenAI is likely to continue their rapid development cycle. GPT-5 announcement is probable given competitive pressure from other AI companies.",
                650,
                ["Technical setbacks", "Compute resource limitations", "Safety concerns"],
                true,
                1767292799,
            ),
        );
        b.insights.push(
            seeded_insight(
                3,
                "Tesla faces production challenges and increased EV competition. Stock price target seems ambitious given current market conditions.",
                580,
                ["Production delays", "Increased competition", "Economic recession"],
                false,
                1737273600,
            ),
        );
        b.next_market_id = 4;
        b
    }
}

/// In a well-formed state the market stored at position `i` is the one its
/// id names.
pub proof fn lemma_market_at(b: Backend, i: int)
    requires
        b.wf(),
        0 <= i < b.markets@.len(),
    ensures
        b.has_market(b.markets@[i].id),
        market_pos(b.markets_view(), b.markets@[i].id) == i,
        b.market(b.markets@[i].id) == b.markets@[i]@,
{
    let id = b.markets@[i].id;
    let ms = b.markets_view();
    assert(ms[i].id == id);
    let k = market_pos(ms, id);
    assert(b.markets@[k].id == id);
    if k < i {
        assert(b.markets@[k].id != b.markets@[i].id);
    } else if k > i {
        assert(b.markets@[i].id != b.markets@[k].id);
    }
}

/// Identifiers are never reused: in every well-formed state each market,
/// trade and comment id lies below its counter, so the id handed out next
/// is new, and the trade and comment logs carry strictly increasing ids.
pub proof fn lemma_next_ids_unused(b: Backend)
    requires
        b.wf(),
    ensures
        forall|i: int| 0 <= i < b.markets@.len() ==> #[trigger] b.markets@[i].id != b.next_market_id,
        forall|i: int| 0 <= i < b.trades@.len() ==> #[trigger] b.trades@[i].id != b.next_trade_id,
        forall|i: int|
            0 <= i < b.comments@.len() ==> #[trigger] b.comments@[i].id != b.next_comment_id,
        forall|i: int, j: int|
            0 <= i < j < b.trades@.len() ==> #[trigger] b.trades@[i].id < #[trigger] b.trades@[j].id,
        forall|i: int, j: int|
            0 <= i < j < b.comments@.len() ==> #[trigger] b.comments@[i].id
                < #[trigger] b.comments@[j].id,
{
}

/// A purchase on one side grows that side's shares and liquidity and the
/// volume by exactly the amount and leaves the other side alone; its fee
/// is two percent of the amount, rounded down.
pub proof fn lemma_purchase_conserves(m: MarketView, is_yes: bool, amount: u64)
    requires
        is_yes ==> m.yes_shares + amount <= u64::MAX && m.yes_liquidity + amount <= u64::MAX,
        !is_yes ==> m.no_shares + amount <= u64::MAX && m.no_liquidity + amount <= u64::MAX,
        m.total_volume + amount <= u64::MAX,
    ensures
        ({
            let a = after_purchase(m, is_yes, amount);
            &&& is_yes ==> a.yes_shares == m.yes_shares + amount && a.yes_liquidity
                == m.yes_liquidity + amount && a.no_shares == m.no_shares && a.no_liquidity
                == m.no_liquidity
            &&& !is_yes ==> a.no_shares == m.no_shares + amount && a.no_liquidity
                == m.no_liquidity + amount && a.yes_shares == m.yes_shares && a.yes_liquidity
                == m.yes_liquidity
            &&& a.total_volume == m.total_volume + amount
            &&& a.id == m.id && a.status == m.status
        }),
        fee_of(amount as int) == amount * 2 / 100,
{
}

/// Resolution is final: a resolved market admits no further step, so its
/// recorded outcome never changes.
pub proof fn lemma_resolution_is_final(change: StatusChange)
    ensures
        next_status(MarketStatus::Resolved, change) is None,
{
}

/// Once an insight is cached, every lookup for its market until an hour
/// after it was generated finds that same insight fresh, so no new one is
/// made.
pub proof fn lemma_insight_cache_idempotent(before: Backend, after: Backend, x: AIInsightView, later: u64)
    requires
        after.wf(),
        after.insights_view() == put_insight(before.insights_view(), x),
        x.generated_at <= later,
        later - x.generated_at < INSIGHT_TTL,
    ensures
        after.has_fresh_insight(x.market_id, later),
        after.insight(x.market_id) == x,
{
    let xs = before.insights_view();
    let ys = after.insights_view();
    let k = insight_pos(xs, x.market_id);
    let at: int = if k >= 0 { k } else { xs.len() as int };
    assert(0 <= at < ys.len() && ys[at] == x);
    assert(after.insights@[at].market_id == x.market_id);
    let q = insight_pos(ys, x.market_id);
    assert(0 <= q < ys.len() && ys[q].market_id == x.market_id);
    assert(after.insights@[q].market_id == x.market_id);
    if q < at {
        assert(after.insights@[q].market_id != after.insights@[at].market_id);
    } else if q > at {
        assert(after.insights@[at].market_id != after.insights@[q].market_id);
    }
}

} // verus!
