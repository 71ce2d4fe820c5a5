use crate::identity::Identity;
use vstd::prelude::*;

verus! {

/// Lifecycle of a market.
#[derive(Clone, Copy, Debug, PartialEq, Eq, Structural)]
pub enum MarketStatus {
    PendingValidation,
    Active,
    Closed,
    Resolved,
}

/// A yes/no prediction market.
pub struct Market {
    pub id: u64,
    pub title: String,
    pub description: String,
    pub category: String,
    pub creator: Identity,
    pub close_date: u64,
    pub status: MarketStatus,
    pub yes_shares: u64,
    pub no_shares: u64,
    pub yes_liquidity: u64,
    pub no_liquidity: u64,
    pub total_volume: u64,
    pub created_at: u64,
    pub resolved_outcome: Option<bool>,
}

pub ghost struct MarketView {
    pub id: u64,
    pub title: Seq<char>,
    pub description: Seq<char>,
    pub category: Seq<char>,
    pub creator: Seq<u8>,
    pub close_date: u64,
    pub status: MarketStatus,
    pub yes_shares: u64,
    pub no_shares: u64,
    pub yes_liquidity: u64,
    pub no_liquidity: u64,
    pub total_volume: u64,
    pub created_at: u64,
    pub resolved_outcome: Option<bool>,
}

impl View for Market {
    type V = MarketView;

    open spec fn view(&self) -> MarketView {
        MarketView {
            id: self.id,
            title: self.title@,
            description: self.description@,
            category: self.category@,
            creator: self.creator@,
            close_date: self.close_date,
            status: self.status,
            yes_shares: self.yes_shares,
            no_shares: self.no_shares,
            yes_liquidity: self.yes_liquidity,
            no_liquidity: self.no_liquidity,
            total_volume: self.total_volume,
            created_at: self.created_at,
            resolved_outcome: self.resolved_outcome,
        }
    }
}

impl Clone for Market {
    fn clone(&self) -> (r: Self)
        ensures
            r@ == self@,
    {
        Market {
            id: self.id,
            title: self.title.clone(),
            description: self.description.clone(),
            category: self.category.clone(),
            creator: self.creator.clone(),
            close_date: self.close_date,
            status: self.status,
            yes_shares: self.yes_shares,
            no_shares: self.no_shares,
            yes_liquidity: self.yes_liquidity,
            no_liquidity: self.no_liquidity,
            total_volume: self.total_volume,
            created_at: self.created_at,
            resolved_outcome: self.resolved_outcome,
        }
    }
}

/// An executed purchase of shares.
pub struct Trade {
    pub id: u64,
    pub market_id: u64,
    pub trader: Identity,
    pub is_yes: bool,
    pub shares: u64,
    pub price: u64,
    pub timestamp: u64,
}

pub ghost struct TradeView {
    pub id: u64,
    pub market_id: u64,
    pub trader: Seq<u8>,
    pub is_yes: bool,
    pub shares: u64,
    pub price: u64,
    pub timestamp: u64,
}

impl View for Trade {
    type V = TradeView;

    open spec fn view(&self) -> TradeView {
        TradeView {
            id: self.id,
            market_id: self.market_id,
            trader: self.trader@,
            is_yes: self.is_yes,
            shares: self.shares,
            price: self.price,
            timestamp: self.timestamp,
        }
    }
}

impl Clone for Trade {
    fn clone(&self) -> (r: Self)
        ensures
            r@ == self@,
    {
        Trade {
            id: self.id,
            market_id: self.market_id,
            trader: self.trader.clone(),
            is_yes: self.is_yes,
            shares: self.shares,
            price: self.price,
            timestamp: self.timestamp,
        }
    }
}

/// A trader's standing.
pub struct UserProfile {
    pub principal: Identity,
    pub username: String,
    pub xp: u64,
    pub total_trades: u64,
    pub successful_predictions: u64,
    pub badges: Vec<String>,
    pub created_at: u64,
}

pub ghost struct UserProfileView {
    pub principal: Seq<u8>,
    pub username: Seq<char>,
    pub xp: u64,
    pub total_trades: u64,
    pub successful_predictions: u64,
    pub badges: Seq<Seq<char>>,
    pub created_at: u64,
}

/// The characters of each string in a list.
pub open spec fn texts_of(v: Seq<String>) -> Seq<Seq<char>> {
    v.map_values(|s: String| s@)
}

impl View for UserProfile {
    type V = UserProfileView;

    open spec fn view(&self) -> UserProfileView {
        UserProfileView {
            principal: self.principal@,
            username: self.username@,
            xp: self.xp,
            total_trades: self.total_trades,
            successful_predictions: self.successful_predictions,
            badges: texts_of(self.badges@),
            created_at: self.created_at,
        }
    }
}

/// A copy of a list of strings.
pub fn copy_texts(v: &Vec<String>) -> (r: Vec<String>)
    ensures
        texts_of(r@) == texts_of(v@),
{
    let mut r: Vec<String> = Vec::new();
    let mut i: usize = 0;
    while i < v.len()
        invariant
            i <= v@.len(),
            r@.len() == i,
            forall|j: int| 0 <= j < i ==> r@[j]@ == v@[j]@,
        decreases v@.len() - i,
    {
        r.push(v[i].clone());
        i = i + 1;
    }
    assert(texts_of(r@) =~= texts_of(v@));
    r
}

impl Clone for UserProfile {
    fn clone(&self) -> (r: Self)
        ensures
            r@ == self@,
    {
        UserProfile {
            principal: self.principal.clone(),
            username: self.username.clone(),
            xp: self.xp,
            total_trades: self.total_trades,
            successful_predictions: self.successful_predictions,
            badges: copy_texts(&self.badges),
            created_at: self.created_at,
        }
    }
}

/// A comment left on a market.
pub struct MarketComment {
    pub id: u64,
    pub market_id: u64,
    pub author: Identity,
    pub content: String,
    pub timestamp: u64,
}

pub ghost struct MarketCommentView {
    pub id: u64,
    pub market_id: u64,
    pub author: Seq<u8>,
    pub content: Seq<char>,
    pub timestamp: u64,
}

impl View for MarketComment {
    type V = MarketCommentView;

    open spec fn view(&self) -> MarketCommentView {
        MarketCommentView {
            id: self.id,
            market_id: self.market_id,
            author: self.author@,
            content: self.content@,
            timestamp: self.timestamp,
        }
    }
}

impl Clone for MarketComment {
    fn clone(&self) -> (r: Self)
        ensures
            r@ == self@,
    {
        MarketComment {
            id: self.id,
            market_id: self.market_id,
            author: self.author.clone(),
            content: self.content.clone(),
            timestamp: self.timestamp,
        }
    }
}

} // verus!
