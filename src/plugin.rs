use vstd::prelude::*;

use crate::context::EdgeContext;

verus! {

/// One header line: its name and its raw value.
#[derive(Debug, Clone)]
pub struct Header {
    pub name: String,
    pub value: Vec<u8>,
}

/// A request as the plugins see it: method, target URI, headers and the
/// fully buffered payload.
#[derive(Debug, Clone)]
pub struct PluginRequest {
    pub method: String,
    pub uri: String,
    pub headers: Vec<Header>,
    pub body: Vec<u8>,
}

/// A response as the plugins see it: status, headers and the fully buffered
/// payload.
#[derive(Debug, Clone)]
pub struct PluginResponse {
    pub status: u16,
    pub headers: Vec<Header>,
    pub body: Vec<u8>,
}

/// A middleware unit with a request hook and a response hook.
///
/// Each hook is described by a spec function of the plugin, the context and
/// the message, so that a chain of plugins can be reasoned about as a
/// composition of those functions.
pub trait EdgePlugin {
    /// What `on_request` returns for a context and a request.
    spec fn request_step(&self, ctx: EdgeContext, req: PluginRequest) -> PluginRequest;

    /// What `on_response` returns for a context and a response.
    spec fn response_step(&self, ctx: EdgeContext, res: PluginResponse) -> PluginResponse;

    /// The plugin's name.
    spec fn name_spec(&self) -> Seq<char>;

    /// The plugin's name; it is the plugin's identity.
    fn name(&self) -> (r: &'static str)
        ensures
            r@ == self.name_spec(),
    ;

    fn on_request(&self, ctx: &EdgeContext, req: PluginRequest) -> (r: PluginRequest)
        ensures
            r == self.request_step(*ctx, req),
    ;

    fn on_response(&self, ctx: &EdgeContext, res: PluginResponse) -> (r: PluginResponse)
        ensures
            r == self.response_step(*ctx, res),
    ;
}

/// The pass-through plugin: both hooks return their input unchanged.
pub struct Nop;

impl EdgePlugin for Nop {
    open spec fn name_spec(&self) -> Seq<char> {
        "nop"@
    }

    open spec fn request_step(&self, ctx: EdgeContext, req: PluginRequest) -> PluginRequest {
        req
    }

    open spec fn response_step(&self, ctx: EdgeContext, res: PluginResponse) -> PluginResponse {
        res
    }

    fn name(&self) -> (r: &'static str) {
        "nop"
    }

    fn on_request(&self, ctx: &EdgeContext, req: PluginRequest) -> (r: PluginRequest) {
        req
    }

    fn on_response(&self, ctx: &EdgeContext, res: PluginResponse) -> (r: PluginResponse) {
        res
    }
}

/// The request after the first `n` plugins of `chain`, applied in declared
/// order, each to the output of the one before.
pub open spec fn chain_request<P: EdgePlugin>(
    chain: Seq<P>,
    n: nat,
    ctx: EdgeContext,
    req: PluginRequest,
) -> PluginRequest
    decreases n,
{
    if n == 0 {
        req
    } else {
        chain[n - 1].request_step(ctx, chain_request(chain, (n - 1) as nat, ctx, req))
    }
}

/// The response after the first `n` plugins of `chain`, in declared order.
pub open spec fn chain_response<P: EdgePlugin>(
    chain: Seq<P>,
    n: nat,
    ctx: EdgeContext,
    res: PluginResponse,
) -> PluginResponse
    decreases n,
{
    if n == 0 {
        res
    } else {
        chain[n - 1].response_step(ctx, chain_response(chain, (n - 1) as nat, ctx, res))
    }
}

/// Runs every plugin's `on_request` hook in declared order.
pub fn run_request_chain<P: EdgePlugin>(
    chain: &Vec<P>,
    ctx: &EdgeContext,
    req: PluginRequest,
) -> (r: PluginRequest)
    ensures
        r == chain_request(chain@, chain@.len(), *ctx, req),
{
    let mut cur = req;
    let mut i: usize = 0;
    while i < chain.len()
        invariant
            i <= chain@.len(),
            cur == chain_request(chain@, i as nat, *ctx, req),
        decreases chain@.len() - i,
    {
        cur = chain[i].on_request(ctx, cur);
        i = i + 1;
    }
    cur
}

/// Runs every plugin's `on_response` hook in declared order (not reversed).
pub fn run_response_chain<P: EdgePlugin>(
    chain: &Vec<P>,
    ctx: &EdgeContext,
    res: PluginResponse,
) -> (r: PluginResponse)
    ensures
        r == chain_response(chain@, chain@.len(), *ctx, res),
{
    let mut cur = res;
    let mut i: usize = 0;
    while i < chain.len()
        invariant
            i <= chain@.len(),
            cur == chain_response(chain@, i as nat, *ctx, res),
        decreases chain@.len() - i,
    {
        cur = chain[i].on_response(ctx, cur);
        i = i + 1;
    }
    cur
}

/// Running `first` and then `second` is running their concatenation: hooks
/// execute in declared order, each on the output of the one before.
pub proof fn lemma_chain_request_concat<P: EdgePlugin>(
    first: Seq<P>,
    second: Seq<P>,
    ctx: EdgeContext,
    req: PluginRequest,
)
    ensures
        chain_request(first + second, (first.len() + second.len()) as nat, ctx, req)
            == chain_request(second, second.len(), ctx, chain_request(first, first.len(), ctx, req)),
    decreases second.len(),
{
    let whole = first + second;
    lemma_chain_request_prefix(whole, first, first.len(), ctx, req);
    if second.len() == 0 {
        assert(whole =~= first);
    } else {
        let shorter = second.drop_last();
        lemma_chain_request_concat(first, shorter, ctx, req);
        assert(first + shorter =~= whole.subrange(0, whole.len() - 1));
        lemma_chain_request_prefix(whole, first + shorter, (whole.len() - 1) as nat, ctx, req);
        lemma_chain_request_prefix(second, shorter, shorter.len(), ctx, chain_request(first, first.len(), ctx, req));
        assert(whole[whole.len() - 1] == second[second.len() - 1]);
    }
}

/// The first `n` steps of a chain only depend on its first `n` plugins.
proof fn lemma_chain_request_prefix<P: EdgePlugin>(
    chain: Seq<P>,
    prefix: Seq<P>,
    n: nat,
    ctx: EdgeContext,
    req: PluginRequest,
)
    requires
        n <= prefix.len(),
        n <= chain.len(),
        forall|i: int| 0 <= i < n ==> chain[i] == prefix[i],
    ensures
        chain_request(chain, n, ctx, req) == chain_request(prefix, n, ctx, req),
    decreases n,
{
    if n > 0 {
        lemma_chain_request_prefix(chain, prefix, (n - 1) as nat, ctx, req);
    }
}

/// A chain of plugins that each pass every request through unchanged leaves
/// the request unchanged.
pub proof fn lemma_pass_through_request_chain<P: EdgePlugin>(
    chain: Seq<P>,
    ctx: EdgeContext,
    req: PluginRequest,
)
    requires
        forall|i: int, r: PluginRequest|
            0 <= i < chain.len() ==> #[trigger] chain[i].request_step(ctx, r) == r,
    ensures
        chain_request(chain, chain.len(), ctx, req) == req,
{
    lemma_pass_through_request_prefix(chain, chain.len(), ctx, req);
}

proof fn lemma_pass_through_request_prefix<P: EdgePlugin>(
    chain: Seq<P>,
    n: nat,
    ctx: EdgeContext,
    req: PluginRequest,
)
    requires
        n <= chain.len(),
        forall|i: int, r: PluginRequest|
            0 <= i < chain.len() ==> #[trigger] chain[i].request_step(ctx, r) == r,
    ensures
        chain_request(chain, n, ctx, req) == req,
    decreases n,
{
    if n > 0 {
        lemma_pass_through_request_prefix(chain, (n - 1) as nat, ctx, req);
        assert(chain[n - 1].request_step(ctx, req) == req);
    }
}

/// A chain of any number of `Nop` plugins is a no-op on the request.
pub proof fn lemma_nop_chain_request(chain: Seq<Nop>, ctx: EdgeContext, req: PluginRequest)
    ensures
        chain_request(chain, chain.len(), ctx, req) == req,
{
    lemma_pass_through_request_chain(chain, ctx, req);
}

/// A chain of plugins that each pass every response through unchanged
/// leaves the response unchanged.
pub proof fn lemma_pass_through_response_chain<P: EdgePlugin>(
    chain: Seq<P>,
    ctx: EdgeContext,
    res: PluginResponse,
)
    requires
        forall|i: int, r: PluginResponse|
            0 <= i < chain.len() ==> #[trigger] chain[i].response_step(ctx, r) == r,
    ensures
        chain_response(chain, chain.len(), ctx, res) == res,
{
    lemma_pass_through_response_prefix(chain, chain.len(), ctx, res);
}

proof fn lemma_pass_through_response_prefix<P: EdgePlugin>(
    chain: Seq<P>,
    n: nat,
    ctx: EdgeContext,
    res: PluginResponse,
)
    requires
        n <= chain.len(),
        forall|i: int, r: PluginResponse|
            0 <= i < chain.len() ==> #[trigger] chain[i].response_step(ctx, r) == r,
    ensures
        chain_response(chain, n, ctx, res) == res,
    decreases n,
{
    if n > 0 {
        lemma_pass_through_response_prefix(chain, (n - 1) as nat, ctx, res);
        assert(chain[n - 1].response_step(ctx, res) == res);
    }
}

/// A chain of any number of `Nop` plugins is a no-op on the response.
pub proof fn lemma_nop_chain_response(chain: Seq<Nop>, ctx: EdgeContext, res: PluginResponse)
    ensures
        chain_response(chain, chain.len(), ctx, res) == res,
{
    lemma_pass_through_response_chain(chain, ctx, res);
}

} // verus!
