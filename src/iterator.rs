use vstd::prelude::*;
use crate::error::{
    check_status, external_gas, lemma_unknown_code_fails, status_result, unexpected_code_text,
    BackendError, ErrorKind, GasInfo, STATUS_BAD_ARGUMENT, STATUS_OK, STATUS_OTHER,
    STATUS_OUT_OF_GAS, STATUS_PANIC,
};
use crate::memory::UnmanagedVector;

verus! {

/// An opaque handle to the gas meter of the calling context. It is handed
/// back to the other side unchanged and never read here.
#[derive(Clone, Copy, Debug, Default, PartialEq, Eq, Structural)]
pub struct gas_meter_t {
    pub handle: u64,
}

/// A cursor that lives on the other side, named by two integers: the store
/// instance and the cursor within it.
#[derive(Clone, Copy, Debug, Default, PartialEq, Eq, Structural)]
pub struct iterator_t {
    pub db_counter: u64,
    pub iterator_index: u64,
}

/// A key and its value.
pub type Record = (Vec<u8>, Vec<u8>);

/// What one "fetch next" call hands back: an untrusted status code, the gas
/// it cost, and three buffers that this side now owns.
pub struct NextReply {
    pub status: i32,
    pub used_gas: u64,
    pub key: UnmanagedVector,
    pub value: UnmanagedVector,
    pub error_msg: UnmanagedVector,
}

/// The "fetch next" call of the other side. Nothing is assumed of what it
/// returns: every reply is checked.
pub trait NextDb {
    fn next_db(&mut self, state: iterator_t, gas_meter: gas_meter_t) -> NextReply;
}

/// The calls that the other side wired into an iterator, if any.
pub struct Iterator_vtable<N> {
    pub next_db: Option<N>,
}

/// A live cursor on the other side.
pub struct GoIter<N> {
    pub gas_meter: gas_meter_t,
    pub state: iterator_t,
    pub vtable: Iterator_vtable<N>,
}

pub open spec fn next_default_text() -> Seq<char> {
    "Failed to fetch next item from iterator"@
}

pub open spec fn vtable_unset_text() -> Seq<char> {
    "iterator vtable not set"@
}

pub open spec fn missing_value_text() -> Seq<char> {
    "Failed to read value while reading the next key in the db"@
}

/// What a step yields for a reply with this status and these buffers:
/// a pair, the end of the sequence, or an error.
pub open spec fn next_result(
    status: i32,
    key: Option<Seq<u8>>,
    value: Option<Seq<u8>>,
    error_msg: Option<Seq<u8>>,
) -> Result<Option<(Seq<u8>, Seq<u8>)>, (ErrorKind, Seq<char>)> {
    match status_result(status, error_msg, next_default_text()) {
        Err(e) => Err(e),
        Ok(_) => match key {
            None => Ok(None),
            Some(k) => match value {
                Some(v) => Ok(Some((k, v))),
                None => Err((ErrorKind::Unknown, missing_value_text())),
            },
        },
    }
}

/// A step with a code outside the known set fails, even where the key and
/// value buffers look like a valid pair.
pub proof fn lemma_unknown_code_step_fails(
    code: i32,
    key: Option<Seq<u8>>,
    value: Option<Seq<u8>>,
    error_msg: Option<Seq<u8>>,
)
    requires
        code != STATUS_OK,
        code != STATUS_PANIC,
        code != STATUS_BAD_ARGUMENT,
        code != STATUS_OUT_OF_GAS,
        code != STATUS_OTHER,
    ensures
        next_result(code, key, value, error_msg) == Err::<Option<(Seq<u8>, Seq<u8>)>, _>(
            (ErrorKind::Unknown, unexpected_code_text()),
        ),
{
    lemma_unknown_code_fails(code, error_msg, next_default_text());
}

/// A successful step without a key is the end of the sequence, not an error,
/// whatever the value buffer holds.
pub proof fn lemma_absent_key_ends(value: Option<Seq<u8>>, error_msg: Option<Seq<u8>>)
    ensures
        next_result(STATUS_OK, None, value, error_msg) == Ok::<_, (ErrorKind, Seq<char>)>(
            None::<(Seq<u8>, Seq<u8>)>,
        ),
{
}

/// The view of what a step returns.
pub open spec fn record_view(r: Result<Option<Record>, BackendError>) -> Result<
    Option<(Seq<u8>, Seq<u8>)>,
    (ErrorKind, Seq<char>),
> {
    match r {
        Ok(Some(p)) => Ok(Some((p.0@, p.1@))),
        Ok(None) => Ok(None),
        Err(e) => Err(e@),
    }
}

/// Turns the reply of one "fetch next" call into the step's result and its gas.
/// The key and value buffers are consumed whatever the status.
pub fn finish_next(reply: NextReply) -> (r: (Result<Option<Record>, BackendError>, GasInfo))
    ensures
        record_view(r.0) == next_result(
            reply.status,
            reply.key@,
            reply.value@,
            reply.error_msg@,
        ),
        r.1 == external_gas(reply.used_gas),
{
    let NextReply { status, used_gas, key, value, error_msg } = reply;
    let output_key = key.consume();
    let output_value = value.consume();
    let gas_info = GasInfo::with_externally_used(used_gas);
    let default = String::from_str("Failed to fetch next item from iterator");
    if let Err(err) = check_status(status, error_msg, default) {
        return (Err(err), gas_info);
    }
    let result = match output_key {
        Some(k) => match output_value {
            Some(v) => Ok(Some((k, v))),
            None => Err(
                BackendError {
                    kind: ErrorKind::Unknown,
                    msg: String::from_str(
                        "Failed to read value while reading the next key in the db",
                    ),
                },
            ),
        },
        None => Ok(None),
    };
    (result, gas_info)
}

impl<N> Iterator_vtable<N> {
    /// A vtable with no call wired in.
    pub fn unset() -> (r: Self)
        ensures
            r.next_db.is_none(),
    {
        Iterator_vtable { next_db: None }
    }
}

impl<N: NextDb> GoIter<N> {
    /// An iterator that is not wired to a cursor yet.
    pub fn new(gas_meter: gas_meter_t) -> (r: Self)
        ensures
            r.gas_meter == gas_meter,
            r.state == (iterator_t { db_counter: 0, iterator_index: 0 }),
            r.vtable.next_db.is_none(),
    {
        GoIter {
            gas_meter,
            state: iterator_t { db_counter: 0, iterator_index: 0 },
            vtable: Iterator_vtable::unset(),
        }
    }

    /// Fetches the next pair with one call to the other side.
    ///
    /// Without a wired call this fails at once and costs nothing. Otherwise the
    /// result is what `finish_next` makes of the reply, whatever it was.
    pub fn next(&mut self) -> (r: (Result<Option<Record>, BackendError>, GasInfo))
        ensures
            final(self).gas_meter == old(self).gas_meter,
            final(self).state == old(self).state,
            final(self).vtable.next_db.is_some() == old(self).vtable.next_db.is_some(),
            old(self).vtable.next_db.is_none() ==> {
                &&& record_view(r.0) == Err::<Option<(Seq<u8>, Seq<u8>)>, _>(
                    (ErrorKind::Unknown, vtable_unset_text()),
                )
                &&& r.1 == external_gas(0)
            },
            old(self).vtable.next_db.is_some() ==> exists|status: i32,
                used_gas: u64,
                key: Option<Seq<u8>>,
                value: Option<Seq<u8>>,
                error_msg: Option<Seq<u8>>|
                {
                    &&& record_view(r.0) == next_result(status, key, value, error_msg)
                    &&& r.1 == external_gas(used_gas)
                },
    {
        let state = self.state;
        let gas_meter = self.gas_meter;
        match &mut self.vtable.next_db {
            Some(f) => {
                let reply = f.next_db(state, gas_meter);
                let ghost (s, g, k, v, m) = (
                    reply.status,
                    reply.used_gas,
                    reply.key@,
                    reply.value@,
                    reply.error_msg@,
                );
                let r = finish_next(reply);
                assert(record_view(r.0) == next_result(s, k, v, m));
                r
            },
            None => (
                Err(
                    BackendError {
                        kind: ErrorKind::Unknown,
                        msg: String::from_str("iterator vtable not set"),
                    },
                ),
                GasInfo::free(),
            ),
        }
    }
}

} // verus!
