use vstd::prelude::*;
use vstd::string::*;

verus! {

/// An analysis of a market, cached per market.
pub struct AIInsight {
    pub market_id: u64,
    pub summary: String,
    /// Confidence in thousandths: 0 to 1000.
    pub confidence_permille: u64,
    pub risks: Vec<String>,
    /// `Some(true)` leans YES, `Some(false)` leans NO.
    pub prediction_lean: Option<bool>,
    pub generated_at: u64,
}

pub ghost struct AIInsightView {
    pub market_id: u64,
    pub summary: Seq<char>,
    pub confidence_permille: u64,
    pub risks: Seq<Seq<char>>,
    pub prediction_lean: Option<bool>,
    pub generated_at: u64,
}

impl View for AIInsight {
    type V = AIInsightView;

    open spec fn view(&self) -> AIInsightView {
        AIInsightView {
            market_id: self.market_id,
            summary: self.summary@,
            confidence_permille: self.confidence_permille,
            risks: crate::market::texts_of(self.risks@),
            prediction_lean: self.prediction_lean,
            generated_at: self.generated_at,
        }
    }
}

impl Clone for AIInsight {
    fn clone(&self) -> (r: Self)
        ensures
            r@ == self@,
    {
        AIInsight {
            market_id: self.market_id,
            summary: self.summary.clone(),
            confidence_permille: self.confidence_permille,
            risks: crate::market::copy_texts(&self.risks),
            prediction_lean: self.prediction_lean,
            generated_at: self.generated_at,
        }
    }
}

/// Summary of the locally generated insight for a market titled `title`.
pub open spec fn template_summary(title: Seq<char>) -> Seq<char> {
    "🤖 AI Analysis for '"@ + title
        + "': Based on current market trends and sentiment analysis, this prediction market shows interesting dynamics. The market sentiment appears to be driven by recent news and social media discussions. Consider both bullish and bearish scenarios before making investment decisions."@
}

/// Risks listed by the locally generated insight.
pub open spec fn template_risks() -> Seq<Seq<char>> {
    seq![
        "Market volatility due to external events"@,
        "Limited trading volume may affect price discovery"@,
        "Information asymmetry between participants"@,
    ]
}

/// The insight generated locally, without the remote model, for a market
/// titled `title`.
pub fn template_insight(market_id: u64, title: &str, now: u64) -> (r: AIInsight)
    ensures
        r@ == (AIInsightView {
            market_id,
            summary: template_summary(title@),
            confidence_permille: 750,
            risks: template_risks(),
            prediction_lean: Some(true),
            generated_at: now,
        }),
{
    let summary = String::from_str("🤖 AI Analysis for '").concat(title).concat(
        "': Based on current market trends and sentiment analysis, this prediction market shows interesting dynamics. The market sentiment appears to be driven by recent news and social media discussions. Consider both bullish and bearish scenarios before making investment decisions.",
    );
    let risks = vec![
        String::from_str("Market volatility due to external events"),
        String::from_str("Limited trading volume may affect price discovery"),
        String::from_str("Information asymmetry between participants"),
    ];
    let r = AIInsight {
        market_id,
        summary,
        confidence_permille: 750,
        risks,
        prediction_lean: Some(true),
        generated_at: now,
    };
    assert(r@.risks =~= template_risks());
    r
}

/// Risks listed by an insight made from a model's reply.
pub open spec fn reply_risks() -> Seq<Seq<char>> {
    seq!["Market volatility"@, "Unexpected events"@]
}

/// The insight made from the remote model's reply: the reply is the summary.
pub fn parse_ai_response(market_id: u64, reply: &str, now: u64) -> (r: AIInsight)
    ensures
        r@ == (AIInsightView {
            market_id,
            summary: reply@,
            confidence_permille: 700,
            risks: reply_risks(),
            prediction_lean: None,
            generated_at: now,
        }),
{
    let risks = vec![String::from_str("Market volatility"), String::from_str("Unexpected events")];
    let r = AIInsight {
        market_id,
        summary: String::from_str(reply),
        confidence_permille: 700,
        risks,
        prediction_lean: None,
        generated_at: now,
    };
    assert(r@.risks =~= reply_risks());
    r
}

/// Risks listed when the remote model could not be reached.
pub open spec fn unreachable_risks() -> Seq<Seq<char>> {
    seq!["AI analysis temporarily unavailable"@, "Check Python agent status"@]
}

/// The insight returned when the call to the remote model failed with the
/// error rendered as `error`.
pub fn failed_call_insight(market_id: u64, error: &str, now: u64) -> (r: AIInsight)
    ensures
        r@ == (AIInsightView {
            market_id,
            summary: "AI analysis call failed: "@ + error@
                + ". Your Python agent may be offline or unreachable."@,
            confidence_permille: 300,
            risks: unreachable_risks(),
            prediction_lean: None,
            generated_at: now,
        }),
{
    let summary = String::from_str("AI analysis call failed: ").concat(error).concat(
        ". Your Python agent may be offline or unreachable.",
    );
    let risks = vec![
        String::from_str("AI analysis temporarily unavailable"),
        String::from_str("Check Python agent status"),
    ];
    let r = AIInsight {
        market_id,
        summary,
        confidence_permille: 300,
        risks,
        prediction_lean: None,
        generated_at: now,
    };
    assert(r@.risks =~= unreachable_risks());
    r
}

/// The insight returned when the remote model's address is malformed.
pub fn invalid_config_insight(market_id: u64, now: u64) -> (r: AIInsight)
    ensures
        r@ == (AIInsightView {
            market_id,
            summary: "Invalid LLM canister ID configuration. Please check the setup."@,
            confidence_permille: 100,
            risks: seq!["Configuration error"@],
            prediction_lean: None,
            generated_at: now,
        }),
{
    let risks = vec![String::from_str("Configuration error")];
    let r = AIInsight {
        market_id,
        summary: String::from_str("Invalid LLM canister ID configuration. Please check the setup."),
        confidence_permille: 100,
        risks,
        prediction_lean: None,
        generated_at: now,
    };
    assert(r@.risks =~= seq!["Configuration error"@]);
    r
}

/// Who wrote a chat message.
#[derive(Clone, Copy, Debug, PartialEq, Eq, Structural)]
pub enum ChatRole {
    User,
    Assistant,
    System,
}

/// One message of a conversation with the remote model.
pub struct ChatMessageV0 {
    pub content: String,
    pub role: ChatRole,
}

/// A request to the remote model.
pub struct ChatRequestV0 {
    pub model: String,
    pub messages: Vec<ChatMessageV0>,
}

/// The request that asks the remote model to analyse a market described by
/// `prompt`: a system message setting the analyst role, then the prompt.
pub fn chat_request(prompt: String) -> (r: ChatRequestV0)
    ensures
        r.model@ == "gpt-4o-mini"@,
        r.messages@.len() == 2,
        r.messages@[0].role == ChatRole::System,
        r.messages@[0].content@
            == "You are an expert financial analyst specializing in prediction markets. Provide clear, objective analysis based on market data."@,
        r.messages@[1].role == ChatRole::User,
        r.messages@[1].content@ == prompt@,
{
    let system = ChatMessageV0 {
        role: ChatRole::System,
        content: String::from_str(
            "You are an expert financial analyst specializing in prediction markets. Provide clear, objective analysis based on market data.",
        ),
    };
    let user = ChatMessageV0 { role: ChatRole::User, content: prompt };
    ChatRequestV0 { model: String::from_str("gpt-4o-mini"), messages: vec![system, user] }
}

} // verus!
