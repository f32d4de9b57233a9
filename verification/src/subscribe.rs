use vstd::prelude::*;

verus! {

/// What serde_json prints for the JSON string value holding `s`: the
/// characters of `s` quoted and escaped.
pub uninterp spec fn json_string_text(s: Seq<char>) -> Seq<char>;

/// Prints `s` as a JSON string, through serde_json's `Display` for
/// `Value::String`. Trusted: the result is what serde_json prints for a
/// string value holding `s`, a function of `s` alone; its escaping rules are
/// not restated here.
#[verifier::external_body]
fn json_string(s: &str) -> (text: String)
    ensures
        text@ == json_string_text(s@),
{
    serde_json::Value::String(s.to_string()).to_string()
}

/// Instrument names the watcher subscribes to, one per exchange.
pub struct CliArgs {
    /// OKX instrument name.
    pub okx_inst: String,
    /// Deribit instrument name.
    pub deribit_inst: String,
}

/// The Deribit book channel for an instrument: 20 levels, no grouping,
/// refreshed every 100 ms.
pub open spec fn deribit_channel_text(inst: Seq<char>) -> Seq<char> {
    "book."@ + inst + ".none.20.100ms"@
}

/// The OKX subscription request for the `books` channel of an instrument,
/// as compact JSON with its keys in sorted order.
pub open spec fn okx_subscribe_text(inst: Seq<char>) -> Seq<char> {
    "{\"args\":[{\"channel\":\"books\",\"instId\":"@ + json_string_text(inst) + "}],\"op\":\"subscribe\"}"@
}

/// The Deribit JSON-RPC `public/subscribe` request for the book channel of an
/// instrument, as compact JSON with its keys in sorted order.
pub open spec fn deribit_subscribe_text(inst: Seq<char>) -> Seq<char> {
    "{\"id\":0,\"jsonrpc\":\"2.0\",\"method\":\"public/subscribe\",\"params\":{\"channels\":["@
        + json_string_text(deribit_channel_text(inst)) + "]}}"@
}

impl CliArgs {
    /// The Deribit book channel name for the configured instrument.
    pub fn deribit_channel(&self) -> (channel: String)
        ensures
            channel@ == deribit_channel_text(self.deribit_inst@),
            channel@ == "book."@ + self.deribit_inst@ + ".none.20.100ms"@,
    {
        let mut channel = String::from_str("book.");
        channel.append(self.deribit_inst.as_str());
        channel.append(".none.20.100ms");
        channel
    }

    /// The subscription request to send to OKX.
    pub fn okx_subscribe_message(&self) -> (msg: String)
        ensures
            msg@ == okx_subscribe_text(self.okx_inst@),
            msg@ == "{\"args\":[{\"channel\":\"books\",\"instId\":"@ + json_string_text(self.okx_inst@)
                + "}],\"op\":\"subscribe\"}"@,
    {
        let inst = json_string(self.okx_inst.as_str());
        let mut msg = String::from_str("{\"args\":[{\"channel\":\"books\",\"instId\":");
        msg.append(inst.as_str());
        msg.append("}],\"op\":\"subscribe\"}");
        msg
    }

    /// The subscription request to send to Deribit.
    pub fn deribit_subscribe_message(&self) -> (msg: String)
        ensures
            msg@ == deribit_subscribe_text(self.deribit_inst@),
            msg@ == "{\"id\":0,\"jsonrpc\":\"2.0\",\"method\":\"public/subscribe\",\"params\":{\"channels\":["@
                + json_string_text("book."@ + self.deribit_inst@ + ".none.20.100ms"@) + "]}}"@,
    {
        let channel = self.deribit_channel();
        let quoted = json_string(channel.as_str());
        let mut msg = String::from_str(
            "{\"id\":0,\"jsonrpc\":\"2.0\",\"method\":\"public/subscribe\",\"params\":{\"channels\":[",
        );
        msg.append(quoted.as_str());
        msg.append("]}}");
        msg
    }
}

impl Default for CliArgs {
    /// The instruments watched when none are given.
    fn default() -> (args: Self)
        ensures
            args.okx_inst@ == "BTC-USD-251226-100000-C"@,
            args.deribit_inst@ == "BTC-26DEC25-100000-C"@,
    {
        CliArgs {
            okx_inst: String::from_str("BTC-USD-251226-100000-C"),
            deribit_inst: String::from_str("BTC-26DEC25-100000-C"),
        }
    }
}

/// The Deribit channel of any instrument is `book.<instrument>.none.20.100ms`:
/// twenty levels, no grouping, every 100 ms, whatever the instrument.
pub proof fn lemma_deribit_channel_shape(inst: Seq<char>)
    ensures
        deribit_channel_text(inst) == "book."@ + inst + ".none.20.100ms"@,
{
}

/// For every instrument the OKX request subscribes (`op` is `subscribe`) to
/// the `books` channel of exactly that instrument, quoted as a JSON string.
pub proof fn lemma_okx_request_shape(inst: Seq<char>)
    ensures
        okx_subscribe_text(inst) == "{\"args\":[{\"channel\":\"books\",\"instId\":"@
            + json_string_text(inst) + "}],\"op\":\"subscribe\"}"@,
{
}

/// For every instrument the Deribit request is the JSON-RPC 2.0 call `public/subscribe`
/// with id 0 on the one channel `book.<instrument>.none.20.100ms`.
pub proof fn lemma_deribit_request_shape(inst: Seq<char>)
    ensures
        deribit_subscribe_text(inst) == "{\"id\":0,\"jsonrpc\":\"2.0\",\"method\":\"public/subscribe\",\"params\":{\"channels\":["@
            + json_string_text("book."@ + inst + ".none.20.100ms"@) + "]}}"@,
{
}

} // verus!
