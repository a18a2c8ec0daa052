use vstd::prelude::*;
use crate::error::{
    check_status_in_context, context_result, debug_quoted, debug_text, external_gas, lossy_text,
    unit_view, utf8_lossy, BackendError,
    ErrorKind, GasInfo,
};
use crate::iterator::{gas_meter_t, iterator_t, GoIter, Iterator_vtable, NextDb};
use crate::memory::{copy_bytes, UnmanagedVector};
use crate::order::Order;

verus! {

/// An opaque handle to the store on the other side, handed back unchanged.
#[derive(Clone, Copy, Debug, Default, PartialEq, Eq, Structural)]
pub struct db_t {
    pub handle: u64,
}

/// The reply to a read: status, gas, and the value buffer (absent when the
/// key has no value).
pub struct ReadReply {
    pub status: i32,
    pub used_gas: u64,
    pub result: UnmanagedVector,
}

/// The reply to a write or a removal.
pub struct CallReply {
    pub status: i32,
    pub used_gas: u64,
}

/// The reply to a scan: status, gas, and the cursor that the other side opened.
pub struct ScanReply<N> {
    pub status: i32,
    pub used_gas: u64,
    pub iterator: iterator_t,
    pub next_db: Option<N>,
}

/// The calls of the other side. Nothing is assumed of their replies. The
/// buffers passed out stay owned by this side and are consumed after the call.
pub trait DbHost {
    type Next: NextDb;

    fn read_db(&self, state: db_t, gas_meter: gas_meter_t, key: &UnmanagedVector) -> ReadReply;

    fn write_db(
        &mut self,
        state: db_t,
        gas_meter: gas_meter_t,
        key: &UnmanagedVector,
        value: &UnmanagedVector,
    ) -> CallReply;

    fn remove_db(&mut self, state: db_t, gas_meter: gas_meter_t, key: &UnmanagedVector) -> CallReply;

    /// `order` is `ORDER_ASCENDING` or `ORDER_DESCENDING`; an absent bound is
    /// unbounded on its side.
    fn scan_db(
        &mut self,
        state: db_t,
        gas_meter: gas_meter_t,
        start: &UnmanagedVector,
        end: &UnmanagedVector,
        order: i32,
    ) -> ScanReply<Self::Next>;
}

/// The calls wired in by the other side.
pub struct DB_vtable<H> {
    pub calls: H,
}

/// A key-value store that lives on the other side of the call boundary.
pub struct DB<H> {
    pub gas_meter: gas_meter_t,
    pub state: db_t,
    pub vtable: DB_vtable<H>,
}

pub open spec fn read_message(key: Seq<u8>) -> Seq<char> {
    "Failed to read a key in the db: "@ + utf8_lossy(key)
}

pub open spec fn set_message(key: Seq<u8>) -> Seq<char> {
    "Failed to set a key in the db: "@ + utf8_lossy(key)
}

pub open spec fn remove_message(key: Seq<u8>) -> Seq<char> {
    "Failed to delete a key in the db: "@ + utf8_lossy(key)
}

pub open spec fn bound_text(b: Option<Seq<u8>>) -> Seq<char> {
    match b {
        Some(s) => "Some("@ + debug_quoted(utf8_lossy(s)) + ")"@,
        None => "None"@,
    }
}

pub open spec fn range_message(start: Option<Seq<u8>>, end: Option<Seq<u8>>) -> Seq<char> {
    "Failed to read the next key between "@ + bound_text(start) + " and "@ + bound_text(end)
}

/// What a read returns for a reply with this status and value buffer.
pub open spec fn get_result(key: Seq<u8>, status: i32, result: Option<Seq<u8>>) -> Result<
    Option<Seq<u8>>,
    (ErrorKind, Seq<char>),
> {
    match context_result(status, read_message(key)) {
        Err(e) => Err(e),
        Ok(_) => Ok(result),
    }
}

pub open spec fn value_view(r: Result<Option<Vec<u8>>, BackendError>) -> Result<
    Option<Seq<u8>>,
    (ErrorKind, Seq<char>),
> {
    match r {
        Ok(Some(v)) => Ok(Some(v@)),
        Ok(None) => Ok(None),
        Err(e) => Err(e@),
    }
}

pub open spec fn opt_bytes(b: Option<&[u8]>) -> Option<Seq<u8>> {
    match b {
        Some(s) => Some(s@),
        None => None,
    }
}

fn message_with_key(prefix: &str, key: &[u8]) -> (r: String)
    ensures
        r@ == prefix@ + utf8_lossy(key@),
{
    let mut m = String::from_str(prefix);
    let text = lossy_text(key);
    m.append(text.as_str());
    m
}

fn bound_message(b: Option<&[u8]>) -> (r: String)
    ensures
        r@ == bound_text(opt_bytes(b)),
{
    match b {
        Some(s) => {
            let text = lossy_text(s);
            let mut m = String::from_str("Some(");
            let quoted = debug_text(text.as_str());
            m.append(quoted.as_str());
            m.append(")");
            m
        },
        None => String::from_str("None"),
    }
}

fn range_error_message(start: Option<&[u8]>, end: Option<&[u8]>) -> (r: String)
    ensures
        r@ == range_message(opt_bytes(start), opt_bytes(end)),
{
    let mut m = String::from_str("Failed to read the next key between ");
    let s = bound_message(start);
    m.append(s.as_str());
    m.append(" and ");
    let e = bound_message(end);
    m.append(e.as_str());
    m
}

/// The buffer that carries an optional bound: absent for `None`.
fn bound_buffer(b: Option<&[u8]>) -> (r: UnmanagedVector)
    ensures
        r@ == opt_bytes(b),
{
    match b {
        Some(s) => UnmanagedVector::from_vec(copy_bytes(s)),
        None => UnmanagedVector::none(),
    }
}

/// Turns the reply to a read of `key` into the value and the gas.
pub fn finish_get(key: &[u8], reply: ReadReply) -> (r: (Result<Option<Vec<u8>>, BackendError>, GasInfo))
    ensures
        value_view(r.0) == get_result(key@, reply.status, reply.result@),
        r.1 == external_gas(reply.used_gas),
{
    let ReadReply { status, used_gas, result } = reply;
    let gas_info = GasInfo::with_externally_used(used_gas);
    let default = message_with_key("Failed to read a key in the db: ", key);
    match check_status_in_context(status, default) {
        Err(e) => {
            let _unused = result.consume();
            (Err(e), gas_info)
        },
        Ok(()) => (Ok(result.consume()), gas_info),
    }
}

/// Turns the reply to a write of `key` into a result and the gas.
pub fn finish_set(key: &[u8], reply: CallReply) -> (r: (Result<(), BackendError>, GasInfo))
    ensures
        unit_view(r.0) == context_result(reply.status, set_message(key@)),
        r.1 == external_gas(reply.used_gas),
{
    let default = message_with_key("Failed to set a key in the db: ", key);
    (check_status_in_context(reply.status, default), GasInfo::with_externally_used(reply.used_gas))
}

/// Turns the reply to a removal of `key` into a result and the gas.
pub fn finish_remove(key: &[u8], reply: CallReply) -> (r: (Result<(), BackendError>, GasInfo))
    ensures
        unit_view(r.0) == context_result(reply.status, remove_message(key@)),
        r.1 == external_gas(reply.used_gas),
{
    let default = message_with_key("Failed to delete a key in the db: ", key);
    (check_status_in_context(reply.status, default), GasInfo::with_externally_used(reply.used_gas))
}

/// Turns the reply to a scan into an iterator wired to `gas_meter`, and the gas.
pub fn finish_range<N>(
    gas_meter: gas_meter_t,
    start: Option<&[u8]>,
    end: Option<&[u8]>,
    reply: ScanReply<N>,
) -> (r: (Result<GoIter<N>, BackendError>, GasInfo))
    ensures
        unit_view(r.0) == context_result(reply.status, range_message(opt_bytes(start), opt_bytes(end))),
        r.0 matches Ok(it) ==> {
            &&& it.gas_meter == gas_meter
            &&& it.state == reply.iterator
            &&& it.vtable.next_db == reply.next_db
        },
        r.1 == external_gas(reply.used_gas),
{
    let ScanReply { status, used_gas, iterator, next_db } = reply;
    let gas_info = GasInfo::with_externally_used(used_gas);
    let default = range_error_message(start, end);
    match check_status_in_context(status, default) {
        Err(e) => (Err(e), gas_info),
        Ok(()) => (Ok(GoIter { gas_meter, state: iterator, vtable: Iterator_vtable { next_db } }), gas_info),
    }
}

impl<H: DbHost> DB<H> {
    /// Reads the value of `key`: `None` where it has none.
    pub fn get(&self, key: &[u8]) -> (r: (Result<Option<Vec<u8>>, BackendError>, GasInfo))
        ensures
            exists|status: i32, used_gas: u64, result: Option<Seq<u8>>|
                {
                    &&& value_view(r.0) == get_result(key@, status, result)
                    &&& r.1 == external_gas(used_gas)
                },
    {
        let key_buf = UnmanagedVector::from_vec(copy_bytes(key));
        let reply = self.vtable.calls.read_db(self.state, self.gas_meter, &key_buf);
        let _key = key_buf.consume();
        let ghost (s, g, v) = (reply.status, reply.used_gas, reply.result@);
        let r = finish_get(key, reply);
        assert(value_view(r.0) == get_result(key@, s, v) && r.1 == external_gas(g));
        r
    }

    /// Writes `value` under `key`.
    pub fn set(&mut self, key: &[u8], value: &[u8]) -> (r: (Result<(), BackendError>, GasInfo))
        ensures
            final(self).gas_meter == old(self).gas_meter,
            final(self).state == old(self).state,
            exists|status: i32, used_gas: u64|
                {
                    &&& unit_view(r.0) == context_result(status, set_message(key@))
                    &&& r.1 == external_gas(used_gas)
                },
    {
        let key_buf = UnmanagedVector::from_vec(copy_bytes(key));
        let value_buf = UnmanagedVector::from_vec(copy_bytes(value));
        let reply = self.vtable.calls.write_db(self.state, self.gas_meter, &key_buf, &value_buf);
        let _key = key_buf.consume();
        let _value = value_buf.consume();
        let ghost (s, g) = (reply.status, reply.used_gas);
        let r = finish_set(key, reply);
        assert(unit_view(r.0) == context_result(s, set_message(key@)) && r.1 == external_gas(g));
        r
    }

    /// Removes the value of `key`.
    pub fn remove(&mut self, key: &[u8]) -> (r: (Result<(), BackendError>, GasInfo))
        ensures
            final(self).gas_meter == old(self).gas_meter,
            final(self).state == old(self).state,
            exists|status: i32, used_gas: u64|
                {
                    &&& unit_view(r.0) == context_result(status, remove_message(key@))
                    &&& r.1 == external_gas(used_gas)
                },
    {
        let key_buf = UnmanagedVector::from_vec(copy_bytes(key));
        let reply = self.vtable.calls.remove_db(self.state, self.gas_meter, &key_buf);
        let _key = key_buf.consume();
        let ghost (s, g) = (reply.status, reply.used_gas);
        let r = finish_remove(key, reply);
        assert(unit_view(r.0) == context_result(s, remove_message(key@)) && r.1 == external_gas(g));
        r
    }

    /// Opens a cursor over the keys from `start` (inclusive) to `end`
    /// (exclusive) in the given order. Where `start >= end` the range is empty.
    pub fn range(&mut self, start: Option<&[u8]>, end: Option<&[u8]>, order: Order) -> (r: (
        Result<GoIter<H::Next>, BackendError>,
        GasInfo,
    ))
        ensures
            final(self).gas_meter == old(self).gas_meter,
            final(self).state == old(self).state,
            r.0 matches Ok(it) ==> it.gas_meter == old(self).gas_meter,
            exists|status: i32, used_gas: u64|
                {
                    &&& unit_view(r.0) == context_result(
                        status,
                        range_message(opt_bytes(start), opt_bytes(end)),
                    )
                    &&& r.1 == external_gas(used_gas)
                },
    {
        let start_buf = bound_buffer(start);
        let end_buf = bound_buffer(end);
        let reply = self.vtable.calls.scan_db(
            self.state,
            self.gas_meter,
            &start_buf,
            &end_buf,
            order.to_code(),
        );
        let _start = start_buf.consume();
        let _end = end_buf.consume();
        let ghost (s, g) = (reply.status, reply.used_gas);
        let r = finish_range(self.gas_meter, start, end, reply);
        assert(unit_view(r.0) == context_result(s, range_message(opt_bytes(start), opt_bytes(end))));
        assert(r.1 == external_gas(g));
        r
    }
}

} // verus!
