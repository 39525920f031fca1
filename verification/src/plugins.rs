//! Example plugins: a counter that answers with its count, and a
//! transformer that adds one to every payload byte.

use vstd::prelude::*;

verus! {

/// A message to a plugin.
#[derive(Debug, Clone)]
pub enum PluginMessage {
    Custom { kind: String, payload: Vec<u8> },
}

/// A plugin's answer.
#[derive(Debug, Clone)]
pub enum PluginReply {
    Success(Vec<u8>),
    Failure(String),
}

/// The ASCII digits of `n` in decimal, without leading zeros.
pub open spec fn decimal_bytes(n: nat) -> Seq<u8>
    decreases n,
{
    if n < 10 {
        seq![(48 + n) as u8]
    } else {
        decimal_bytes(n / 10).push((48 + n % 10) as u8)
    }
}

/// The ASCII digits of `n`.
pub fn decimal_bytes_exec(n: u64) -> (v: Vec<u8>)
    ensures
        v@ == decimal_bytes(n as nat),
    decreases n,
{
    if n < 10 {
        let mut v = Vec::new();
        v.push((48 + n) as u8);
        assert(v@ =~= decimal_bytes(n as nat));
        v
    } else {
        let mut v = decimal_bytes_exec(n / 10);
        v.push((48 + n % 10) as u8);
        v
    }
}

/// Counts the messages it handles and answers each with the new count.
#[derive(Default)]
pub struct CounterPlugin {
    count: u64,
}

impl CounterPlugin {
    /// Messages handled so far.
    pub closed spec fn spec_count(&self) -> u64 {
        self.count
    }

    pub fn new() -> (p: Self)
        ensures
            p.spec_count() == 0,
    {
        CounterPlugin { count: 0 }
    }

    pub fn id(&self) -> (s: &'static str)
        ensures
            s@ == "counter"@,
    {
        "counter"
    }

    pub fn version(&self) -> (s: &'static str)
        ensures
            s@ == "0.1.0"@,
    {
        "0.1.0"
    }

    /// Counts the message and answers with the count in decimal.
    pub fn handle_message(&mut self, _msg: PluginMessage) -> (r: Result<PluginReply, String>)
        requires
            old(self).spec_count() < u64::MAX,
        ensures
            final(self).spec_count() == old(self).spec_count() + 1,
            r matches Ok(PluginReply::Success(bytes)) && bytes@ == decimal_bytes(final(self).spec_count() as nat),
    {
        self.count = self.count + 1;
        Ok(PluginReply::Success(decimal_bytes_exec(self.count)))
    }

    /// A second plugin with the same count.
    pub fn clone_box(&self) -> (p: CounterPlugin)
        ensures
            p.spec_count() == self.spec_count(),
    {
        CounterPlugin { count: self.count }
    }
}

/// The counting plugin of the wasm example.
#[derive(Default)]
pub struct WasmCounterPlugin {
    count: u64,
}

impl WasmCounterPlugin {
    pub closed spec fn spec_count(&self) -> u64 {
        self.count
    }

    pub fn new() -> (p: Self)
        ensures
            p.spec_count() == 0,
    {
        WasmCounterPlugin { count: 0 }
    }

    pub fn id(&self) -> (s: &'static str)
        ensures
            s@ == "wasm-counter"@,
    {
        "wasm-counter"
    }

    pub fn version(&self) -> (s: &'static str)
        ensures
            s@ == "0.1.0"@,
    {
        "0.1.0"
    }

    /// Counts the message and answers with the count in decimal.
    pub fn handle_message(&mut self, _msg: PluginMessage) -> (r: Result<PluginReply, String>)
        requires
            old(self).spec_count() < u64::MAX,
        ensures
            final(self).spec_count() == old(self).spec_count() + 1,
            r matches Ok(PluginReply::Success(bytes)) && bytes@ == decimal_bytes(final(self).spec_count() as nat),
    {
        self.count = self.count + 1;
        Ok(PluginReply::Success(decimal_bytes_exec(self.count)))
    }

    pub fn clone_box(&self) -> (p: WasmCounterPlugin)
        ensures
            p.spec_count() == self.spec_count(),
    {
        WasmCounterPlugin { count: self.count }
    }
}

/// `b + 1`, with 255 wrapping to 0.
pub open spec fn byte_plus_one(b: u8) -> u8 {
    if b == 255 {
        0
    } else {
        (b + 1) as u8
    }
}

/// Answers a custom message with its payload, each byte plus one.
#[derive(Default)]
pub struct WasmTransformerPlugin;

impl WasmTransformerPlugin {
    pub fn id(&self) -> (s: &'static str)
        ensures
            s@ == "wasm-transformer"@,
    {
        "wasm-transformer"
    }

    pub fn version(&self) -> (s: &'static str)
        ensures
            s@ == "0.1.0"@,
    {
        "0.1.0"
    }

    pub fn handle_message(&mut self, msg: PluginMessage) -> (r: Result<PluginReply, String>)
        ensures
            match msg {
                PluginMessage::Custom { payload, .. } => r matches Ok(PluginReply::Success(bytes))
                    && bytes@ == payload@.map_values(|b: u8| byte_plus_one(b)),
            },
    {
        let payload = match msg {
            PluginMessage::Custom { payload, .. } => payload,
        };
        let mut out: Vec<u8> = Vec::new();
        let mut i: usize = 0;
        while i < payload.len()
            invariant
                i <= payload@.len(),
                out@ == payload@.take(i as int).map_values(|b: u8| byte_plus_one(b)),
            decreases payload@.len() - i,
        {
            let b = payload[i].wrapping_add(1);
            out.push(b);
            assert(payload@.take(i + 1) =~= payload@.take(i as int).push(payload@[i as int]));
            assert(out@ =~= payload@.take(i + 1).map_values(|b: u8| byte_plus_one(b)));
            i = i + 1;
        }
        assert(payload@.take(i as int) =~= payload@);
        Ok(PluginReply::Success(out))
    }

    pub fn clone_box(&self) -> (p: WasmTransformerPlugin) {
        WasmTransformerPlugin
    }
}

} // verus!
