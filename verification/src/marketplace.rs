//! The AI prompt marketplace's integer rules: the quota of each tier, how a
//! prompt template is filled in, and the simulated model reply.
use vstd::prelude::*;
use crate::strmap::StrMap;
use crate::text;

verus! {

/// What a model does.
#[derive(Debug, Clone, Copy, PartialEq, Eq, Structural)]
pub enum ModelType {
    TextGeneration,
    CodeGeneration,
    ImageGeneration,
    Embedding,
    Classification,
    Translation,
}

/// What a prompt is for.
#[derive(Debug, Clone, Copy, PartialEq, Eq, Structural)]
pub enum PromptCategory {
    CodeGeneration,
    ContentWriting,
    DataAnalysis,
    ImageGeneration,
    Translation,
    Summarization,
    QA,
    Creative,
    Business,
    Educational,
}

/// Where a request stands.
#[derive(Debug, Clone, Copy, PartialEq, Eq, Structural)]
pub enum RequestStatus {
    Pending,
    Processing,
    Completed,
    Failed,
    RateLimited,
    InsufficientCredits,
}

/// What a prompt needs of a model.
pub struct ModelRequirements {
    pub min_context_length: u32,
    pub required_capabilities: Vec<String>,
    pub preferred_models: Vec<String>,
}

/// A review of a prompt.
pub struct PromptReview {
    pub reviewer_id: String,
    pub rating: u8,
    pub comment: String,
    pub timestamp: u64,
}

/// How a prompt's revenue is shared.
pub struct RevenueShare {
    pub prompt_id: String,
    pub publisher_earnings: u64,
    pub platform_fee: u64,
    pub endpoint_provider_share: u64,
    pub total_revenue: u64,
}

/// A user's allowance and use.
pub struct UsageQuota {
    pub user_id: String,
    pub tier: String,
    pub daily_requests: u32,
    pub requests_used_today: u32,
    pub monthly_tokens: u64,
    pub tokens_used_month: u64,
    pub premium_credits: u64,
    pub reset_at: u64,
}

/// The allowance of a tier: daily requests, monthly tokens and premium
/// credits; an unknown tier gets the free allowance.
pub open spec fn tier_allowance(tier: Seq<char>) -> (u32, u64, u64) {
    if tier == "Bronze"@ {
        (50, 50000, 500)
    } else if tier == "Silver"@ {
        (200, 200000, 2000)
    } else if tier == "Gold"@ {
        (1000, 1000000, 10000)
    } else if tier == "Platinum"@ {
        (u32::MAX, u64::MAX, u64::MAX)
    } else {
        (10, 10000, 100)
    }
}

/// A prompt on offer. Its rating, a float, is kept by the caller.
pub struct PublishedPrompt {
    pub prompt_id: String,
    pub publisher_id: String,
    pub title: String,
    pub description: String,
    pub category: PromptCategory,
    pub prompt_template: String,
    pub output_format: String,
    pub price_per_request: u64,
    pub model_requirements: ModelRequirements,
    pub usage_count: u64,
    pub reviews: Vec<PromptReview>,
    pub published_at: u64,
}

/// A model endpoint's capacity and use. Its price per token and its uptime,
/// floats, are kept by the caller.
pub struct LLMEndpoint {
    pub endpoint_id: String,
    pub owner_id: String,
    pub port: u16,
    pub model_name: String,
    pub model_type: ModelType,
    pub max_tokens: u32,
    pub requests_per_block: u32,
    pub available_quota: u64,
    pub total_requests: u64,
    pub endpoint_url: String,
}

/// A request that was answered.
#[derive(Debug)]
pub struct AIRequest {
    pub request_id: String,
    pub user_id: String,
    pub prompt_id: Option<String>,
    pub endpoint_id: String,
    /// The text asked: a prompt request's `input`, where it has one, or
    /// the prompt of a direct request.
    pub input: Option<String>,
    /// The model's answer.
    pub output: String,
    pub tokens_used: u32,
    pub cost_credits: u64,
    pub processing_time_ms: u64,
    pub timestamp: u64,
    pub status: RequestStatus,
}

/// A copy of an optional string.
fn copy_opt(o: &Option<String>) -> (r: Option<String>)
    ensures
        r == *o,
{
    match o {
        Some(s) => Some(s.clone()),
        None => None,
    }
}

impl AIRequest {
    /// A copy of the request.
    pub fn duplicate(&self) -> (r: Self)
        ensures
            r == *self,
    {
        AIRequest {
            request_id: self.request_id.clone(),
            user_id: self.user_id.clone(),
            prompt_id: copy_opt(&self.prompt_id),
            endpoint_id: self.endpoint_id.clone(),
            input: copy_opt(&self.input),
            output: self.output.clone(),
            tokens_used: self.tokens_used,
            cost_credits: self.cost_credits,
            processing_time_ms: self.processing_time_ms,
            timestamp: self.timestamp,
            status: self.status,
        }
    }
}

/// Prompts, endpoints, the users' quotas and the requests they made.
pub struct AIPromptMarketplace {
    pub published_prompts: StrMap<PublishedPrompt>,
    pub llm_endpoints: StrMap<LLMEndpoint>,
    pub usage_quotas: StrMap<UsageQuota>,
    pub request_history: StrMap<Vec<AIRequest>>,
}

impl AIPromptMarketplace {
    /// Its tables are well formed.
    pub open spec fn wf(&self) -> bool {
        &&& self.published_prompts.wf()
        &&& self.llm_endpoints.wf()
        &&& self.usage_quotas.wf()
        &&& self.request_history.wf()
    }

    /// No prompts, endpoints, quotas or requests.
    pub fn new() -> (b: Self)
        ensures
            b.wf(),
            b.published_prompts@ == Map::<Seq<char>, PublishedPrompt>::empty(),
            b.llm_endpoints@ == Map::<Seq<char>, LLMEndpoint>::empty(),
            b.usage_quotas@ == Map::<Seq<char>, UsageQuota>::empty(),
            b.request_history@ == Map::<Seq<char>, Vec<AIRequest>>::empty(),
    {
        AIPromptMarketplace {
            published_prompts: StrMap::new(),
            llm_endpoints: StrMap::new(),
            usage_quotas: StrMap::new(),
            request_history: StrMap::new(),
        }
    }

    /// Gives `user_id` a fresh quota of its tier at `now`, resetting a day
    /// later.
    pub fn initialize_user_quota(&mut self, user_id: &str, tier: &str, now: u64)
        requires
            old(self).wf(),
            now + 86400 <= u64::MAX,
        ensures
            final(self).wf(),
            final(self).published_prompts == old(self).published_prompts,
            final(self).llm_endpoints == old(self).llm_endpoints,
            final(self).request_history == old(self).request_history,
            final(self).usage_quotas@.dom() == old(self).usage_quotas@.dom().insert(user_id@),
            forall|k: Seq<char>| k != user_id@ && #[trigger] old(self).usage_quotas@.contains_key(k) ==> final(self).usage_quotas@[k] == old(self).usage_quotas@[k],
            ({
                let q = final(self).usage_quotas@[user_id@];
                let (d, m, p) = tier_allowance(tier@);
                &&& q.user_id@ == user_id@
                &&& q.tier@ == tier@
                &&& q.daily_requests == d
                &&& q.requests_used_today == 0
                &&& q.monthly_tokens == m
                &&& q.tokens_used_month == 0
                &&& q.premium_credits == p
                &&& q.reset_at == now + 86400
            }),
    {
        let (d, m, p): (u32, u64, u64) = if text::str_eq(tier, "Bronze") {
            (50, 50000, 500)
        } else if text::str_eq(tier, "Silver") {
            (200, 200000, 2000)
        } else if text::str_eq(tier, "Gold") {
            (1000, 1000000, 10000)
        } else if text::str_eq(tier, "Platinum") {
            (u32::MAX, u64::MAX, u64::MAX)
        } else {
            (10, 10000, 100)
        };
        let quota = UsageQuota {
            user_id: String::from_str(user_id),
            tier: String::from_str(tier),
            daily_requests: d,
            requests_used_today: 0,
            monthly_tokens: m,
            tokens_used_month: 0,
            premium_credits: p,
            reset_at: now + 86400,
        };
        self.usage_quotas.insert(String::from_str(user_id), quota);
        assert(self.usage_quotas@.dom() =~= old(self).usage_quotas@.dom().insert(user_id@));
    }
}

/// A template filled in: `{input}` replaced by the input, if there is one,
/// then `{timestamp}` by the time.
pub open spec fn filled_template(template: Seq<char>, input: Option<Seq<char>>, timestamp: Seq<char>) -> Seq<char> {
    let t = match input {
        Some(i) => text::replace_all(template, "{input}"@, i),
        None => template,
    };
    text::replace_all(t, "{timestamp}"@, timestamp)
}

/// Fills in a prompt template with the request's `input` text (if the
/// request has one) and the time in RFC 3339 form.
pub fn process_prompt_template(template: &str, input: Option<&str>, timestamp: &str) -> (r: Result<String, String>)
    ensures
        r is Ok,
        r->Ok_0@ == filled_template(
            template@,
            match input {
                Some(i) => Some(i@),
                None => None,
            },
            timestamp@,
        ),
{
    proof {
        reveal_strlit("{input}");
        reveal_strlit("{timestamp}");
    }
    let t = match input {
        Some(i) => text::replace_str(template, "{input}", i),
        None => String::from_str(template),
    };
    Ok(text::replace_str(t.as_str(), "{timestamp}", timestamp))
}

/// The simulated replies, one of which answers a prompt.
pub open spec fn simulated_reply(k: int) -> Seq<char> {
    if k == 0 {
        "Here's a helpful response to your query."@
    } else if k == 1 {
        "Based on the input, I can provide this analysis."@
    } else if k == 2 {
        "The solution to your problem is as follows:"@
    } else {
        "After processing your request, here's what I found:"@
    }
}

/// The first `n` characters of `s`, or all of them.
pub open spec fn first_chars(s: Seq<char>, n: nat) -> Seq<char> {
    if s.len() <= n {
        s
    } else {
        s.take(n as int)
    }
}

/// The simulated answer of a model: the reply chosen by the prompt's length
/// in bytes modulo 4, a space, and the prompt's first 50 characters.
pub open spec fn simulated_answer(prompt: Seq<char>) -> Seq<char> {
    simulated_reply(((vstd::utf8::encode_utf8(prompt).len() as usize) % 4) as int) + " "@ + first_chars(prompt, 50)
}

/// Answers a prompt as the simulated endpoint does.
pub fn call_llm_endpoint(endpoint_url: &str, prompt: &str) -> (r: Result<String, String>)
    ensures
        r is Ok,
        r->Ok_0@ == simulated_answer(prompt@),
{
    let k = prompt.len() % 4;
    let mut r = if k == 0 {
        String::from_str("Here's a helpful response to your query.")
    } else if k == 1 {
        String::from_str("Based on the input, I can provide this analysis.")
    } else if k == 2 {
        String::from_str("The solution to your problem is as follows:")
    } else {
        String::from_str("After processing your request, here's what I found:")
    };
    r.append(" ");
    let cs = text::chars_of(prompt);
    let n: usize = if cs.len() <= 50 { cs.len() } else { 50 };
    let head = text::string_of(vstd::slice::slice_subrange(cs.as_slice(), 0, n));
    assert(head@ =~= first_chars(prompt@, 50));
    r.append(head.as_str());
    Ok(r)
}


/// The id of a prompt published by `publisher` at `now`.
pub open spec fn prompt_id_of(publisher: Seq<char>, now: i64) -> Seq<char> {
    "prompt_"@ + publisher + "_"@ + text::signed_decimal(now as int)
}

/// A prompt as it is published: text output, a 2048-token context with
/// text generation, no preferred models, unused and unreviewed.
pub open spec fn fresh_prompt(
    p: PublishedPrompt,
    id: Seq<char>,
    publisher: Seq<char>,
    title: Seq<char>,
    description: Seq<char>,
    template: Seq<char>,
    category: PromptCategory,
    price: u64,
    now: i64,
) -> bool {
    &&& p.prompt_id@ == id
    &&& p.publisher_id@ == publisher
    &&& p.title@ == title
    &&& p.description@ == description
    &&& p.category == category
    &&& p.prompt_template@ == template
    &&& p.output_format@ == "text"@
    &&& p.price_per_request == price
    &&& p.model_requirements.min_context_length == 2048
    &&& text::string_views(p.model_requirements.required_capabilities@) == seq!["text-generation"@]
    &&& p.model_requirements.preferred_models@.len() == 0
    &&& p.usage_count == 0
    &&& p.reviews@.len() == 0
    &&& p.published_at == now as u64
}

/// The id of the endpoint of `owner` on `port`.
pub open spec fn endpoint_id_of(owner: Seq<char>, port: u16) -> Seq<char> {
    "endpoint_"@ + owner + "_"@ + text::decimal(port as nat)
}

/// An endpoint as it is registered: 10 requests per block, a million tokens
/// of quota, no requests yet, served under `/ai` on its local port.
pub open spec fn fresh_endpoint(
    e: LLMEndpoint,
    owner: Seq<char>,
    port: u16,
    model_name: Seq<char>,
    model_type: ModelType,
    max_tokens: u32,
) -> bool {
    &&& e.endpoint_id@ == endpoint_id_of(owner, port)
    &&& e.owner_id@ == owner
    &&& e.port == port
    &&& e.model_name@ == model_name
    &&& e.model_type == model_type
    &&& e.max_tokens == max_tokens
    &&& e.requests_per_block == 10
    &&& e.available_quota == 1000000
    &&& e.total_requests == 0
    &&& e.endpoint_url@ == "http://localhost:"@ + text::decimal(port as nat) + "/ai"@
}

/// An endpoint can serve a prompt: it has more than 1000 tokens of quota
/// left and takes the context the prompt needs.
pub open spec fn qualifies(e: LLMEndpoint, min_context: u32) -> bool {
    e.available_quota > 1000 && e.max_tokens >= min_context
}

/// The first endpoint, in order of preference, that can serve a prompt.
pub open spec fn first_qualifying(
    eps: Map<Seq<char>, LLMEndpoint>,
    preferred: Seq<Seq<char>>,
    min_context: u32,
) -> Option<Seq<char>>
    decreases preferred.len(),
{
    if preferred.len() == 0 {
        None
    } else if eps.contains_key(preferred[0]) && qualifies(eps[preferred[0]], min_context) {
        Some(preferred[0])
    } else {
        first_qualifying(eps, preferred.drop_first(), min_context)
    }
}

/// Why a prompt request is refused, checked in this order: the user has no
/// quota, the day's requests are used up, the prompt is unknown, no endpoint
/// can serve it, the credits do not cover its price.
pub open spec fn execute_error(
    quotas: Map<Seq<char>, UsageQuota>,
    prompts: Map<Seq<char>, PublishedPrompt>,
    eps: Map<Seq<char>, LLMEndpoint>,
    user: Seq<char>,
    prompt_id: Seq<char>,
    preferred: Seq<Seq<char>>,
) -> Option<Seq<char>> {
    if !quotas.contains_key(user) {
        Some("User quota not found"@)
    } else if quotas[user].requests_used_today >= quotas[user].daily_requests {
        Some("Daily request limit exceeded"@)
    } else if !prompts.contains_key(prompt_id) {
        Some("Prompt not found"@)
    } else if first_qualifying(eps, preferred, prompts[prompt_id].model_requirements.min_context_length) is None {
        Some("No available endpoints meet requirements"@)
    } else if quotas[user].premium_credits < prompts[prompt_id].price_per_request {
        Some("Insufficient credits"@)
    } else {
        None
    }
}

/// The number of bytes of a text in UTF-8, as `str::len` gives it.
pub open spec fn byte_len(s: Seq<char>) -> nat {
    (vstd::utf8::encode_utf8(s).len() as usize) as nat
}

/// The tokens a request uses: a quarter of the bytes of the text sent and
/// of the answer.
pub open spec fn tokens_for(sent: Seq<char>) -> nat {
    (byte_len(sent) + byte_len(simulated_answer(sent))) / 4
}

/// The text a prompt request sends.
pub open spec fn sent_text(p: PublishedPrompt, input: Option<Seq<char>>, timestamp: Seq<char>) -> Seq<char> {
    filled_template(p.prompt_template@, input, timestamp)
}

/// A quota after a request of `tokens` tokens costing `cost` credits.
pub open spec fn charged(q: UsageQuota, tokens: nat, cost: u64) -> UsageQuota {
    UsageQuota {
        requests_used_today: (q.requests_used_today + 1) as u32,
        tokens_used_month: (q.tokens_used_month + tokens) as u64,
        premium_credits: (q.premium_credits - cost) as u64,
        ..q
    }
}

/// An endpoint after serving a request of `tokens` tokens.
pub open spec fn served(e: LLMEndpoint, tokens: nat) -> LLMEndpoint {
    LLMEndpoint {
        total_requests: (e.total_requests + 1) as u64,
        available_quota: (e.available_quota - tokens) as u64,
        ..e
    }
}

/// A prompt after one more use.
pub open spec fn used_once(p: PublishedPrompt) -> PublishedPrompt {
    PublishedPrompt { usage_count: (p.usage_count + 1) as u64, ..p }
}

/// The counters of an accepted prompt request stay within their types, as
/// the arithmetic on them needs.
pub open spec fn execute_fits(
    quotas: Map<Seq<char>, UsageQuota>,
    prompts: Map<Seq<char>, PublishedPrompt>,
    eps: Map<Seq<char>, LLMEndpoint>,
    user: Seq<char>,
    prompt_id: Seq<char>,
    input: Option<Seq<char>>,
    preferred: Seq<Seq<char>>,
    timestamp: Seq<char>,
) -> bool {
    execute_error(quotas, prompts, eps, user, prompt_id, preferred) is None ==> {
        let p = prompts[prompt_id];
        let e = eps[first_qualifying(eps, preferred, p.model_requirements.min_context_length).unwrap()];
        let tokens = tokens_for(sent_text(p, input, timestamp));
        &&& quotas[user].tokens_used_month + tokens <= u64::MAX
        &&& tokens <= e.available_quota
        &&& p.usage_count < u64::MAX
        &&& e.total_requests < u64::MAX
    }
}

/// The optional text of an optional string.
pub open spec fn opt_text(o: Option<String>) -> Option<Seq<char>> {
    match o {
        Some(s) => Some(s@),
        None => None,
    }
}

/// The optional text of an optional string slice.
pub open spec fn opt_str(o: Option<&str>) -> Option<Seq<char>> {
    match o {
        Some(s) => Some(s@),
        None => None,
    }
}

/// The id of a request of `user` at `now`.
pub open spec fn request_id_of(prefix: Seq<char>, user: Seq<char>, now: i64) -> Seq<char> {
    prefix + user + "_"@ + text::signed_decimal(now as int)
}

/// The requests a user made before, in order.
pub open spec fn history_of(h: Map<Seq<char>, Vec<AIRequest>>, user: Seq<char>) -> Seq<AIRequest> {
    if h.contains_key(user) {
        h[user]@
    } else {
        Seq::empty()
    }
}

/// Bytes of a string slice (`str::len`), widened.
fn byte_count(s: &str) -> (n: u128)
    ensures
        n == byte_len(s@),
{
    s.len() as u128
}

impl AIPromptMarketplace {
    /// Publishes a prompt of `publisher_id` at `now` and returns its id.
    pub fn publish_prompt(
        &mut self,
        publisher_id: &str,
        title: &str,
        description: &str,
        prompt_template: &str,
        category: PromptCategory,
        price_per_request: u64,
        now: i64,
    ) -> (r: Result<String, String>)
        requires
            old(self).wf(),
        ensures
            final(self).wf(),
            r is Ok,
            r->Ok_0@ == prompt_id_of(publisher_id@, now),
            final(self).published_prompts@.dom() == old(self).published_prompts@.dom().insert(r->Ok_0@),
            forall|k: Seq<char>| k != r->Ok_0@ && #[trigger] old(self).published_prompts@.contains_key(k)
                ==> final(self).published_prompts@[k] == old(self).published_prompts@[k],
            fresh_prompt(
                final(self).published_prompts@[r->Ok_0@],
                r->Ok_0@,
                publisher_id@,
                title@,
                description@,
                prompt_template@,
                category,
                price_per_request,
                now,
            ),
            final(self).llm_endpoints == old(self).llm_endpoints,
            final(self).usage_quotas == old(self).usage_quotas,
            final(self).request_history == old(self).request_history,
    {
        let mut prompt_id = String::from_str("prompt_");
        prompt_id.append(publisher_id);
        prompt_id.append("_");
        prompt_id.append(text::signed_decimal_string(now).as_str());
        let mut caps: Vec<String> = Vec::new();
        caps.push(String::from_str("text-generation"));
        let models: Vec<String> = Vec::new();
        assert(text::string_views(caps@) =~= seq!["text-generation"@]);
        let prompt = PublishedPrompt {
            prompt_id: prompt_id.clone(),
            publisher_id: String::from_str(publisher_id),
            title: String::from_str(title),
            description: String::from_str(description),
            category,
            prompt_template: String::from_str(prompt_template),
            output_format: String::from_str("text"),
            price_per_request,
            model_requirements: ModelRequirements {
                min_context_length: 2048,
                required_capabilities: caps,
                preferred_models: models,
            },
            usage_count: 0,
            reviews: Vec::new(),
            published_at: now as u64,
        };
        self.published_prompts.insert(prompt_id.clone(), prompt);
        assert(self.published_prompts@.dom() =~= old(self).published_prompts@.dom().insert(prompt_id@));
        Ok(prompt_id)
    }

    /// Registers the endpoint of `owner_id` on `port` and returns its id.
    pub fn register_llm_endpoint(
        &mut self,
        owner_id: &str,
        port: u16,
        model_name: &str,
        model_type: ModelType,
        max_tokens: u32,
    ) -> (r: Result<String, String>)
        requires
            old(self).wf(),
        ensures
            final(self).wf(),
            r is Ok,
            r->Ok_0@ == endpoint_id_of(owner_id@, port),
            final(self).llm_endpoints@.dom() == old(self).llm_endpoints@.dom().insert(r->Ok_0@),
            forall|k: Seq<char>| k != r->Ok_0@ && #[trigger] old(self).llm_endpoints@.contains_key(k)
                ==> final(self).llm_endpoints@[k] == old(self).llm_endpoints@[k],
            fresh_endpoint(final(self).llm_endpoints@[r->Ok_0@], owner_id@, port, model_name@, model_type, max_tokens),
            final(self).published_prompts == old(self).published_prompts,
            final(self).usage_quotas == old(self).usage_quotas,
            final(self).request_history == old(self).request_history,
    {
        let mut endpoint_id = String::from_str("endpoint_");
        endpoint_id.append(owner_id);
        endpoint_id.append("_");
        endpoint_id.append(text::decimal_string(port as u64).as_str());
        let mut url = String::from_str("http://localhost:");
        url.append(text::decimal_string(port as u64).as_str());
        url.append("/ai");
        let endpoint = LLMEndpoint {
            endpoint_id: endpoint_id.clone(),
            owner_id: String::from_str(owner_id),
            port,
            model_name: String::from_str(model_name),
            model_type,
            max_tokens,
            requests_per_block: 10,
            available_quota: 1000000,
            total_requests: 0,
            endpoint_url: url,
        };
        self.llm_endpoints.insert(endpoint_id.clone(), endpoint);
        assert(self.llm_endpoints@.dom() =~= old(self).llm_endpoints@.dom().insert(endpoint_id@));
        Ok(endpoint_id)
    }

    /// The storage position of the first endpoint, in order of preference,
    /// that can serve a prompt needing `min_context` tokens of context.
    fn first_qualifying_at(&self, preferred: &Vec<String>, min_context: u32) -> (r: Option<usize>)
        requires
            self.wf(),
        ensures
            match first_qualifying(self.llm_endpoints@, text::string_views(preferred@), min_context) {
                Some(id) => r is Some && r->0 < self.llm_endpoints.key_seq().len()
                    && self.llm_endpoints.key_seq()[r->0 as int] == id,
                None => r is None,
            },
    {
        let ghost ps = text::string_views(preferred@);
        let mut i: usize = 0;
        assert(ps.skip(0) =~= ps);
        while i < preferred.len()
            invariant
                self.wf(),
                ps == text::string_views(preferred@),
                i <= ps.len(),
                first_qualifying(self.llm_endpoints@, ps, min_context) == first_qualifying(
                    self.llm_endpoints@,
                    ps.skip(i as int),
                    min_context,
                ),
            decreases ps.len() - i,
        {
            let id = preferred[i].as_str();
            assert(ps.skip(i as int)[0] == id@);
            assert(ps.skip(i as int).drop_first() =~= ps.skip(i + 1));
            match self.llm_endpoints.find(id) {
                Some(k) => {
                    proof {
                        self.llm_endpoints.lemma_entry(k as int);
                    }
                    let e = self.llm_endpoints.value_at(k);
                    if e.available_quota > 1000 && e.max_tokens >= min_context {
                        return Some(k);
                    }
                },
                None => {},
            }
            i = i + 1;
        }
        None
    }

    /// Answers a published prompt for `user_id` at `now` with the first
    /// endpoint in `preferred` that can serve it, charging the prompt's price
    /// and the tokens used, and records the request. The input is the
    /// request's `input` text, if any; `timestamp` is `now` in RFC 3339 form.
    pub fn execute_prompt(
        &mut self,
        user_id: &str,
        prompt_id: &str,
        input: Option<&str>,
        preferred: &Vec<String>,
        now: i64,
        timestamp: &str,
    ) -> (r: Result<AIRequest, String>)
        requires
            old(self).wf(),
            execute_fits(
                old(self).usage_quotas@,
                old(self).published_prompts@,
                old(self).llm_endpoints@,
                user_id@,
                prompt_id@,
                opt_str(input),
                text::string_views(preferred@),
                timestamp@,
            ),
        ensures
            final(self).wf(),
            match execute_error(
                old(self).usage_quotas@,
                old(self).published_prompts@,
                old(self).llm_endpoints@,
                user_id@,
                prompt_id@,
                text::string_views(preferred@),
            ) {
                Some(e) => r is Err && r->Err_0@ == e && *final(self) == *old(self),
                None => r is Ok && {
                    let q = old(self).usage_quotas@[user_id@];
                    let p = old(self).published_prompts@[prompt_id@];
                    let eid = first_qualifying(
                        old(self).llm_endpoints@,
                        text::string_views(preferred@),
                        p.model_requirements.min_context_length,
                    ).unwrap();
                    let e = old(self).llm_endpoints@[eid];
                    let sent = sent_text(p, opt_str(input), timestamp@);
                    let tokens = tokens_for(sent);
                    let req = r->Ok_0;
                    &&& req.request_id@ == request_id_of("req_"@, user_id@, now)
                    &&& req.user_id@ == user_id@
                    &&& opt_text(req.prompt_id) == Some(prompt_id@)
                    &&& req.endpoint_id@ == eid
                    &&& opt_text(req.input) == opt_str(input)
                    &&& req.output@ == simulated_answer(sent)
                    &&& req.tokens_used == tokens as u32
                    &&& req.cost_credits == p.price_per_request
                    &&& req.processing_time_ms == 1500
                    &&& req.timestamp == now as u64
                    &&& req.status == RequestStatus::Completed
                    &&& final(self).usage_quotas@ == old(self).usage_quotas@.insert(
                        user_id@,
                        charged(q, tokens, p.price_per_request),
                    )
                    &&& final(self).published_prompts@ == old(self).published_prompts@.insert(prompt_id@, used_once(p))
                    &&& final(self).llm_endpoints@ == old(self).llm_endpoints@.insert(eid, served(e, tokens))
                    &&& final(self).request_history@.dom() == old(self).request_history@.dom().insert(user_id@)
                    &&& final(self).request_history@[user_id@]@ == history_of(old(self).request_history@, user_id@).push(req)
                    &&& forall|k: Seq<char>| k != user_id@ && #[trigger] old(self).request_history@.contains_key(k)
                        ==> final(self).request_history@[k] == old(self).request_history@[k]
                },
            },
    {
        let qi = match self.usage_quotas.find(user_id) {
            Some(i) => i,
            None => {
                return Err(String::from_str("User quota not found"));
            },
        };
        proof {
            self.usage_quotas.lemma_entry(qi as int);
        }
        let quota = self.usage_quotas.value_at(qi);
        if quota.requests_used_today >= quota.daily_requests {
            return Err(String::from_str("Daily request limit exceeded"));
        }
        let pi = match self.published_prompts.find(prompt_id) {
            Some(i) => i,
            None => {
                return Err(String::from_str("Prompt not found"));
            },
        };
        proof {
            self.published_prompts.lemma_entry(pi as int);
        }
        let prompt = self.published_prompts.value_at(pi);
        let ei = match self.first_qualifying_at(preferred, prompt.model_requirements.min_context_length) {
            Some(i) => i,
            None => {
                return Err(String::from_str("No available endpoints meet requirements"));
            },
        };
        proof {
            self.llm_endpoints.lemma_entry(ei as int);
        }
        if quota.premium_credits < prompt.price_per_request {
            return Err(String::from_str("Insufficient credits"));
        }
        let cost = prompt.price_per_request;
        let endpoint = self.llm_endpoints.value_at(ei);
        let endpoint_id = self.llm_endpoints.key_at(ei).clone();
        let sent = match process_prompt_template(prompt.prompt_template.as_str(), input, timestamp) {
            Ok(t) => t,
            Err(e) => {
                return Err(e);
            },
        };
        let output = match call_llm_endpoint(endpoint.endpoint_url.as_str(), sent.as_str()) {
            Ok(o) => o,
            Err(e) => {
                return Err(e);
            },
        };
        let total: u128 = byte_count(sent.as_str()) + byte_count(output.as_str());
        let tokens: u64 = (total / 4) as u64;
        let ghost q0 = *quota;
        let ghost p0 = *prompt;
        let ghost e0 = *endpoint;
        let ghost quotas0 = self.usage_quotas;
        let ghost prompts0 = self.published_prompts;
        let ghost eps0 = self.llm_endpoints;
        let q = self.usage_quotas.value_mut_at(qi);
        q.requests_used_today = q.requests_used_today + 1;
        q.tokens_used_month = q.tokens_used_month + tokens;
        q.premium_credits = q.premium_credits - cost;
        proof {
            quotas0.lemma_update_at(&self.usage_quotas, qi as int, charged(q0, tokens as nat, cost));
        }
        let p = self.published_prompts.value_mut_at(pi);
        p.usage_count = p.usage_count + 1;
        proof {
            prompts0.lemma_update_at(&self.published_prompts, pi as int, used_once(p0));
        }
        let e = self.llm_endpoints.value_mut_at(ei);
        e.total_requests = e.total_requests + 1;
        e.available_quota = e.available_quota - tokens;
        proof {
            eps0.lemma_update_at(&self.llm_endpoints, ei as int, served(e0, tokens as nat));
        }
        let mut request_id = String::from_str("req_");
        request_id.append(user_id);
        request_id.append("_");
        request_id.append(text::signed_decimal_string(now).as_str());
        let input_copy = match input {
            Some(i) => Some(String::from_str(i)),
            None => None,
        };
        let req = AIRequest {
            request_id,
            user_id: String::from_str(user_id),
            prompt_id: Some(String::from_str(prompt_id)),
            endpoint_id,
            input: input_copy,
            output,
            tokens_used: tokens as u32,
            cost_credits: cost,
            processing_time_ms: 1500,
            timestamp: now as u64,
            status: RequestStatus::Completed,
        };
        self.record_request(user_id, req.duplicate());
        Ok(req)
    }

    /// Appends a request to the user's history.
    fn record_request(&mut self, user_id: &str, req: AIRequest)
        requires
            old(self).wf(),
        ensures
            final(self).wf(),
            final(self).published_prompts == old(self).published_prompts,
            final(self).llm_endpoints == old(self).llm_endpoints,
            final(self).usage_quotas == old(self).usage_quotas,
            final(self).request_history@.dom() == old(self).request_history@.dom().insert(user_id@),
            final(self).request_history@[user_id@]@ == history_of(old(self).request_history@, user_id@).push(req),
            forall|k: Seq<char>| k != user_id@ && #[trigger] old(self).request_history@.contains_key(k)
                ==> final(self).request_history@[k] == old(self).request_history@[k],
    {
        let mut h = match self.request_history.remove(user_id) {
            Some(v) => v,
            None => Vec::new(),
        };
        h.push(req);
        self.request_history.insert(String::from_str(user_id), h);
        assert(self.request_history@.dom() =~= old(self).request_history@.dom().insert(user_id@));
    }
}


/// Why a direct request is refused, checked in this order: the user has no
/// quota, the endpoint is unknown, the day's requests are used up, the
/// credits do not cover the cost.
pub open spec fn direct_error(
    quotas: Map<Seq<char>, UsageQuota>,
    eps: Map<Seq<char>, LLMEndpoint>,
    user: Seq<char>,
    endpoint_id: Seq<char>,
    cost: u64,
) -> Option<Seq<char>> {
    if !quotas.contains_key(user) {
        Some("User quota not found"@)
    } else if !eps.contains_key(endpoint_id) {
        Some("Endpoint not found"@)
    } else if quotas[user].requests_used_today >= quotas[user].daily_requests {
        Some("Daily request limit exceeded"@)
    } else if quotas[user].premium_credits < cost {
        Some("Insufficient credits"@)
    } else {
        None
    }
}

/// The counters of an accepted direct request stay within their types.
pub open spec fn direct_fits(
    quotas: Map<Seq<char>, UsageQuota>,
    eps: Map<Seq<char>, LLMEndpoint>,
    user: Seq<char>,
    endpoint_id: Seq<char>,
    prompt: Seq<char>,
    cost: u64,
) -> bool {
    direct_error(quotas, eps, user, endpoint_id, cost) is None ==> {
        let tokens = tokens_for(prompt);
        &&& quotas[user].tokens_used_month + tokens <= u64::MAX
        &&& tokens <= eps[endpoint_id].available_quota
        &&& eps[endpoint_id].total_requests < u64::MAX
    }
}

impl AIPromptMarketplace {
    /// Sends `prompt` straight to an endpoint for `user_id` at `now`,
    /// charging `cost` credits (what the endpoint's price per token makes of
    /// a quarter of the prompt's bytes) and the tokens used, and records the
    /// request.
    pub fn direct_llm_request(
        &mut self,
        user_id: &str,
        endpoint_id: &str,
        prompt: &str,
        cost: u64,
        now: i64,
    ) -> (r: Result<AIRequest, String>)
        requires
            old(self).wf(),
            direct_fits(old(self).usage_quotas@, old(self).llm_endpoints@, user_id@, endpoint_id@, prompt@, cost),
        ensures
            final(self).wf(),
            match direct_error(old(self).usage_quotas@, old(self).llm_endpoints@, user_id@, endpoint_id@, cost) {
                Some(e) => r is Err && r->Err_0@ == e && *final(self) == *old(self),
                None => r is Ok && {
                    let q = old(self).usage_quotas@[user_id@];
                    let e = old(self).llm_endpoints@[endpoint_id@];
                    let tokens = tokens_for(prompt@);
                    let req = r->Ok_0;
                    &&& req.request_id@ == request_id_of("direct_"@, user_id@, now)
                    &&& req.user_id@ == user_id@
                    &&& req.prompt_id is None
                    &&& req.endpoint_id@ == endpoint_id@
                    &&& opt_text(req.input) == Some(prompt@)
                    &&& req.output@ == simulated_answer(prompt@)
                    &&& req.tokens_used == tokens as u32
                    &&& req.cost_credits == cost
                    &&& req.processing_time_ms == 2000
                    &&& req.timestamp == now as u64
                    &&& req.status == RequestStatus::Completed
                    &&& final(self).usage_quotas@ == old(self).usage_quotas@.insert(user_id@, charged(q, tokens, cost))
                    &&& final(self).published_prompts == old(self).published_prompts
                    &&& final(self).llm_endpoints@ == old(self).llm_endpoints@.insert(endpoint_id@, served(e, tokens))
                    &&& final(self).request_history@.dom() == old(self).request_history@.dom().insert(user_id@)
                    &&& final(self).request_history@[user_id@]@ == history_of(old(self).request_history@, user_id@).push(req)
                    &&& forall|k: Seq<char>| k != user_id@ && #[trigger] old(self).request_history@.contains_key(k)
                        ==> final(self).request_history@[k] == old(self).request_history@[k]
                },
            },
    {
        let qi = match self.usage_quotas.find(user_id) {
            Some(i) => i,
            None => {
                return Err(String::from_str("User quota not found"));
            },
        };
        proof {
            self.usage_quotas.lemma_entry(qi as int);
        }
        let ei = match self.llm_endpoints.find(endpoint_id) {
            Some(i) => i,
            None => {
                return Err(String::from_str("Endpoint not found"));
            },
        };
        proof {
            self.llm_endpoints.lemma_entry(ei as int);
        }
        let quota = self.usage_quotas.value_at(qi);
        if quota.requests_used_today >= quota.daily_requests {
            return Err(String::from_str("Daily request limit exceeded"));
        }
        if quota.premium_credits < cost {
            return Err(String::from_str("Insufficient credits"));
        }
        let endpoint = self.llm_endpoints.value_at(ei);
        let output = match call_llm_endpoint(endpoint.endpoint_url.as_str(), prompt) {
            Ok(o) => o,
            Err(e) => {
                return Err(e);
            },
        };
        let total: u128 = byte_count(prompt) + byte_count(output.as_str());
        let tokens: u64 = (total / 4) as u64;
        let ghost q0 = *quota;
        let ghost e0 = *endpoint;
        let ghost quotas0 = self.usage_quotas;
        let ghost eps0 = self.llm_endpoints;
        let q = self.usage_quotas.value_mut_at(qi);
        q.requests_used_today = q.requests_used_today + 1;
        q.tokens_used_month = q.tokens_used_month + tokens;
        q.premium_credits = q.premium_credits - cost;
        proof {
            quotas0.lemma_update_at(&self.usage_quotas, qi as int, charged(q0, tokens as nat, cost));
        }
        let e = self.llm_endpoints.value_mut_at(ei);
        e.total_requests = e.total_requests + 1;
        e.available_quota = e.available_quota - tokens;
        proof {
            eps0.lemma_update_at(&self.llm_endpoints, ei as int, served(e0, tokens as nat));
        }
        let mut request_id = String::from_str("direct_");
        request_id.append(user_id);
        request_id.append("_");
        request_id.append(text::signed_decimal_string(now).as_str());
        let req = AIRequest {
            request_id,
            user_id: String::from_str(user_id),
            prompt_id: None,
            endpoint_id: String::from_str(endpoint_id),
            input: Some(String::from_str(prompt)),
            output,
            tokens_used: tokens as u32,
            cost_credits: cost,
            processing_time_ms: 2000,
            timestamp: now as u64,
            status: RequestStatus::Completed,
        };
        self.record_request(user_id, req.duplicate());
        Ok(req)
    }
}

/// The tier names, told apart by their characters.
proof fn lemma_tier_names_distinct()
    ensures
        "Bronze"@.len() == 6,
        "Silver"@.len() == 6,
        "Gold"@.len() == 4,
        "Platinum"@.len() == 8,
        "Bronze"@[0] == 'B',
        "Silver"@[0] == 'S',
{
    reveal_strlit("Bronze");
    reveal_strlit("Silver");
    reveal_strlit("Gold");
    reveal_strlit("Platinum");
}

/// Each named tier has its own allowance, growing from tier to tier in
/// every part and always above the free allowance that any other name
/// gets: Bronze 50 requests a day, 50000 tokens a month and 500 premium
/// credits; Silver 200, 200000 and 2000; Gold 1000, 1000000 and 10000;
/// Platinum without limit.
pub proof fn law_tier_allowances(tier: Seq<char>)
    ensures
        tier_allowance("Bronze"@) == (50u32, 50000u64, 500u64),
        tier_allowance("Silver"@) == (200u32, 200000u64, 2000u64),
        tier_allowance("Gold"@) == (1000u32, 1000000u64, 10000u64),
        tier_allowance("Platinum"@) == (u32::MAX, u64::MAX, u64::MAX),
        tier != "Bronze"@ && tier != "Silver"@ && tier != "Gold"@ && tier != "Platinum"@ ==> tier_allowance(tier)
            == (10u32, 10000u64, 100u64),
        ({
            let f = tier_allowance(tier);
            let b = tier_allowance("Bronze"@);
            let s = tier_allowance("Silver"@);
            let g = tier_allowance("Gold"@);
            let p = tier_allowance("Platinum"@);
            &&& f.0 < b.0 < s.0 < g.0 < p.0 || tier == "Bronze"@ || tier == "Silver"@ || tier == "Gold"@
                || tier == "Platinum"@
            &&& b.0 < s.0 < g.0 < p.0 && b.1 < s.1 < g.1 < p.1 && b.2 < s.2 < g.2 < p.2
        }),
{
    lemma_tier_names_distinct();
}

} // verus!
