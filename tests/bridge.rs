use wasmvm::db::{finish_get, finish_range, finish_remove, finish_set, CallReply, ReadReply, ScanReply, DB, DB_vtable, db_t};
use wasmvm::error::{
    check_status, BackendError, ErrorKind, GasInfo, GoError, STATUS_BAD_ARGUMENT, STATUS_OK,
    STATUS_OTHER, STATUS_OUT_OF_GAS, STATUS_PANIC,
};
use wasmvm::iterator::{finish_next, gas_meter_t, iterator_t, GoIter, NextReply, Record};
use wasmvm::lex::{bytes_equal, lex_less};
use wasmvm::memory::UnmanagedVector;
use wasmvm::mock::{MemoryCursor, MemoryDb, MEMORY_CALL_GAS};
use wasmvm::order::{Order, ORDER_ASCENDING, ORDER_DESCENDING};

fn memory_db() -> DB<MemoryDb> {
    DB {
        gas_meter: gas_meter_t { handle: 42 },
        state: db_t { handle: 7 },
        vtable: DB_vtable { calls: MemoryDb::new() },
    }
}

fn collect(it: &mut GoIter<MemoryCursor>) -> Vec<Record> {
    let mut out = Vec::new();
    loop {
        let (res, gas) = it.next();
        assert_eq!(gas, GasInfo::with_externally_used(MEMORY_CALL_GAS));
        match res {
            Ok(Some(pair)) => out.push(pair),
            Ok(None) => return out,
            Err(e) => panic!("unexpected error: {:?}", e),
        }
    }
}

fn scan(db: &mut DB<MemoryDb>, start: Option<&[u8]>, end: Option<&[u8]>, order: Order) -> Vec<Record> {
    let (res, gas) = db.range(start, end, order);
    assert_eq!(gas.externally_used, MEMORY_CALL_GAS);
    let mut it = res.expect("scan succeeds");
    assert_eq!(it.gas_meter, gas_meter_t { handle: 42 });
    collect(&mut it)
}

fn pair(k: &str, v: &str) -> Record {
    (k.as_bytes().to_vec(), v.as_bytes().to_vec())
}

fn reply(status: i32, key: Option<&[u8]>, value: Option<&[u8]>, msg: Option<&[u8]>) -> NextReply {
    NextReply {
        status,
        used_gas: 9,
        key: UnmanagedVector::new(key.map(|k| k.to_vec())),
        value: UnmanagedVector::new(value.map(|v| v.to_vec())),
        error_msg: UnmanagedVector::new(msg.map(|m| m.to_vec())),
    }
}

fn unwrap_err<T>(r: Result<T, BackendError>) -> BackendError {
    match r {
        Ok(_) => panic!("expected an error"),
        Err(e) => e,
    }
}

#[test]
fn three_records_in_both_orders() {
    let mut db = memory_db();
    for (k, v) in [("a", "1"), ("c", "3"), ("b", "2")] {
        let (res, gas) = db.set(k.as_bytes(), v.as_bytes());
        assert!(res.is_ok());
        assert_eq!(gas, GasInfo::with_externally_used(MEMORY_CALL_GAS));
    }
    assert_eq!(
        scan(&mut db, None, None, Order::Ascending),
        vec![pair("a", "1"), pair("b", "2"), pair("c", "3")]
    );
    assert_eq!(
        scan(&mut db, None, None, Order::Descending),
        vec![pair("c", "3"), pair("b", "2"), pair("a", "1")]
    );
    assert_eq!(scan(&mut db, Some(b"b"), Some(b"b"), Order::Ascending), vec![]);
}

#[test]
fn write_then_read_then_remove() {
    let mut db = memory_db();
    let (res, gas) = db.get(b"key");
    assert_eq!(res.unwrap(), None);
    assert_eq!(gas.externally_used, MEMORY_CALL_GAS);
    db.set(b"key", b"value").0.unwrap();
    assert_eq!(db.get(b"key").0.unwrap(), Some(b"value".to_vec()));
    db.set(b"key", b"other").0.unwrap();
    assert_eq!(db.get(b"key").0.unwrap(), Some(b"other".to_vec()));
    let (res, gas) = db.remove(b"key");
    assert!(res.is_ok());
    assert_eq!(gas.externally_used, MEMORY_CALL_GAS);
    assert_eq!(db.get(b"key").0.unwrap(), None);
    db.remove(b"key").0.unwrap();
    assert_eq!(db.get(b"key").0.unwrap(), None);
}

#[test]
fn empty_key_and_empty_value_are_stored() {
    let mut db = memory_db();
    db.set(b"", b"").0.unwrap();
    assert_eq!(db.get(b"").0.unwrap(), Some(vec![]));
    assert_eq!(scan(&mut db, None, None, Order::Ascending), vec![pair("", "")]);
}

#[test]
fn bounds_are_inclusive_then_exclusive() {
    let mut db = memory_db();
    for k in ["a", "ab", "b", "ba", "c"] {
        db.set(k.as_bytes(), b"x").0.unwrap();
    }
    let keys = |r: Vec<Record>| r.into_iter().map(|(k, _)| String::from_utf8(k).unwrap()).collect::<Vec<_>>();
    assert_eq!(keys(scan(&mut db, Some(b"ab"), Some(b"c"), Order::Ascending)), vec!["ab", "b", "ba"]);
    assert_eq!(keys(scan(&mut db, Some(b"ab"), Some(b"c"), Order::Descending)), vec!["ba", "b", "ab"]);
    assert_eq!(keys(scan(&mut db, None, Some(b"b"), Order::Ascending)), vec!["a", "ab"]);
    assert_eq!(keys(scan(&mut db, Some(b"b"), None, Order::Descending)), vec!["c", "ba", "b"]);
}

#[test]
fn start_not_below_end_is_empty_in_both_orders() {
    let mut db = memory_db();
    for k in ["a", "b", "c"] {
        db.set(k.as_bytes(), b"x").0.unwrap();
    }
    for order in [Order::Ascending, Order::Descending] {
        assert_eq!(scan(&mut db, Some(b"c"), Some(b"a"), order), vec![]);
        assert_eq!(scan(&mut db, Some(b"b"), Some(b"b"), order), vec![]);
    }
}

#[test]
fn exhaustion_is_terminal() {
    let mut db = memory_db();
    db.set(b"k", b"v").0.unwrap();
    let mut it = db.range(None, None, Order::Ascending).0.unwrap();
    assert_eq!(it.next().0.unwrap(), Some(pair("k", "v")));
    for _ in 0..3 {
        let (res, gas) = it.next();
        assert_eq!(res.unwrap(), None);
        assert_eq!(gas.externally_used, MEMORY_CALL_GAS);
    }
}

#[test]
fn scan_is_a_snapshot() {
    let mut db = memory_db();
    db.set(b"a", b"1").0.unwrap();
    let mut it = db.range(None, None, Order::Ascending).0.unwrap();
    db.set(b"b", b"2").0.unwrap();
    assert_eq!(collect(&mut it), vec![pair("a", "1")]);
}

#[test]
fn unset_iterator_fails_for_free() {
    let mut it: GoIter<MemoryCursor> = GoIter::new(gas_meter_t { handle: 5 });
    assert_eq!(it.state, iterator_t { db_counter: 0, iterator_index: 0 });
    let (res, gas) = it.next();
    let e = unwrap_err(res);
    assert_eq!(e.kind, ErrorKind::Unknown);
    assert_eq!(e.msg, "iterator vtable not set");
    assert_eq!(gas, GasInfo::free());
}

#[test]
fn unknown_code_is_never_success() {
    for code in [7, 1, -5, i32::MAX, i32::MIN] {
        let (res, gas) = finish_next(reply(code, Some(b"k"), Some(b"v"), Some(b"fine")));
        let e = unwrap_err(res);
        assert_eq!(e.kind, ErrorKind::Unknown);
        assert_eq!(e.msg, "unexpected return code from the other side of the call");
        assert_eq!(gas.externally_used, 9);
        assert_eq!(GoError::from_code(code), GoError::Unexpected);
    }
}

#[test]
fn next_step_outcomes() {
    let (res, gas) = finish_next(reply(STATUS_OK, Some(b"k"), Some(b"v"), None));
    assert_eq!(res.unwrap(), Some(pair("k", "v")));
    assert_eq!(gas, GasInfo { cost: 0, externally_used: 9 });
    assert_eq!(finish_next(reply(STATUS_OK, None, Some(b"v"), None)).0.unwrap(), None);
    let e = unwrap_err(finish_next(reply(STATUS_OK, Some(b"k"), None, None)).0);
    assert_eq!(e.kind, ErrorKind::Unknown);
    assert_eq!(e.msg, "Failed to read value while reading the next key in the db");
}

#[test]
fn other_failure_reads_the_message_buffer() {
    let e = unwrap_err(finish_next(reply(STATUS_OTHER, None, None, Some(b"disk on fire"))).0);
    assert_eq!(e.kind, ErrorKind::Unknown);
    assert_eq!(e.msg, "disk on fire");
    let e = unwrap_err(finish_next(reply(STATUS_OTHER, None, None, None)).0);
    assert_eq!(e.msg, "Failed to fetch next item from iterator");
    let e = unwrap_err(finish_next(reply(STATUS_OTHER, None, None, Some(b""))).0);
    assert_eq!(e.msg, "Failed to fetch next item from iterator");
    let e = unwrap_err(finish_next(reply(STATUS_OTHER, None, None, Some(&[0xff, 0xfe]))).0);
    assert_eq!(e.msg, "Failed to fetch next item from iterator");
}

#[test]
fn precondition_failures_take_the_default_message() {
    let cases = [
        (STATUS_PANIC, ErrorKind::ForeignPanic),
        (STATUS_BAD_ARGUMENT, ErrorKind::BadArgument),
        (STATUS_OUT_OF_GAS, ErrorKind::OutOfGas),
    ];
    for (code, kind) in cases {
        let e = unwrap_err(check_status(code, UnmanagedVector::from_vec(b"ignored".to_vec()), "dflt".to_string()));
        assert_eq!(e.kind, kind);
        assert_eq!(e.msg, "dflt");
    }
    assert!(check_status(STATUS_OK, UnmanagedVector::from_vec(b"x".to_vec()), "dflt".to_string()).is_ok());
}

#[test]
fn storage_failures_name_the_key() {
    let (res, gas) = finish_get(b"k\xff", ReadReply { status: STATUS_OTHER, used_gas: 3, result: UnmanagedVector::none() });
    let e = unwrap_err(res);
    assert_eq!(e.kind, ErrorKind::Unknown);
    assert_eq!(e.msg, "Failed to read a key in the db: k\u{fffd}");
    assert_eq!(gas.externally_used, 3);
    let e = unwrap_err(finish_set(b"s", CallReply { status: STATUS_BAD_ARGUMENT, used_gas: 1 }).0);
    assert_eq!(e.kind, ErrorKind::BadArgument);
    assert_eq!(e.msg, "Failed to set a key in the db: s");
    let e = unwrap_err(finish_remove(b"r", CallReply { status: STATUS_OUT_OF_GAS, used_gas: 1 }).0);
    assert_eq!(e.kind, ErrorKind::OutOfGas);
    assert_eq!(e.msg, "Failed to delete a key in the db: r");
    let (res, gas) = finish_range::<MemoryCursor>(
        gas_meter_t { handle: 1 },
        Some(b"a"),
        None,
        ScanReply { status: STATUS_PANIC, used_gas: 4, iterator: iterator_t::default(), next_db: None },
    );
    let e = unwrap_err(res);
    assert_eq!(e.kind, ErrorKind::ForeignPanic);
    assert_eq!(e.msg, "Failed to read the next key between Some(\"a\") and None");
    assert_eq!(gas.externally_used, 4);
}

#[test]
fn successful_read_hands_back_value_and_gas() {
    let (res, gas) = finish_get(b"k", ReadReply { status: STATUS_OK, used_gas: 11, result: UnmanagedVector::from_vec(b"v".to_vec()) });
    assert_eq!(res.unwrap(), Some(b"v".to_vec()));
    assert_eq!(gas.externally_used, 11);
    let (res, gas) = finish_get(b"k", ReadReply { status: STATUS_OK, used_gas: 12, result: UnmanagedVector::none() });
    assert_eq!(res.unwrap(), None);
    assert_eq!(gas.externally_used, 12);
    assert_eq!(finish_set(b"k", CallReply { status: STATUS_OK, used_gas: 5 }).1.externally_used, 5);
}

#[test]
fn range_wires_the_iterator() {
    let (res, _) = finish_range::<MemoryCursor>(
        gas_meter_t { handle: 77 },
        None,
        None,
        ScanReply { status: STATUS_OK, used_gas: 0, iterator: iterator_t { db_counter: 3, iterator_index: 4 }, next_db: None },
    );
    let it = res.unwrap();
    assert_eq!(it.gas_meter, gas_meter_t { handle: 77 });
    assert_eq!(it.state, iterator_t { db_counter: 3, iterator_index: 4 });
    assert!(it.vtable.next_db.is_none());
}

#[test]
fn memory_scan_rejects_unknown_order() {
    let db = MemoryDb::new();
    let r = db.scan(None, None, 3);
    assert_eq!(r.status, STATUS_BAD_ARGUMENT);
    assert!(r.next_db.is_none());
    assert_eq!(db.scan(None, None, ORDER_ASCENDING).status, STATUS_OK);
}

#[test]
fn order_codes() {
    assert_eq!(Order::Ascending.to_code(), 1);
    assert_eq!(Order::Descending.to_code(), 2);
    assert_eq!(Order::from_code(ORDER_DESCENDING), Some(Order::Descending));
    assert_eq!(Order::from_code(0), None);
}

#[test]
fn buffers_are_consumed_once() {
    let b = UnmanagedVector::from_vec(vec![1, 2]);
    assert!(!b.is_none());
    assert_eq!(b.as_slice(), Some(&[1u8, 2][..]));
    assert_eq!(b.consume(), Some(vec![1, 2]));
    let n = UnmanagedVector::default();
    assert!(n.is_none());
    assert_eq!(n.consume(), None);
}

#[test]
fn lexicographic_order_on_bytes() {
    assert!(lex_less(b"a", b"b"));
    assert!(lex_less(b"a", b"ab"));
    assert!(lex_less(b"", b"a"));
    assert!(!lex_less(b"ab", b"a"));
    assert!(!lex_less(b"a", b"a"));
    assert!(lex_less(b"\x00\xff", b"\x01"));
    assert!(bytes_equal(b"ab", b"ab"));
    assert!(!bytes_equal(b"ab", b"abc"));
}

#[test]
fn unknown_code_on_storage_calls_keeps_the_context() {
    for code in [7, 1, -5, i32::MIN] {
        let (res, gas) = finish_get(b"k", ReadReply { status: code, used_gas: 2, result: UnmanagedVector::from_vec(b"v".to_vec()) });
        let e = unwrap_err(res);
        assert_eq!(e.kind, ErrorKind::Unknown);
        assert_eq!(e.msg, "Failed to read a key in the db: k");
        assert_eq!(gas.externally_used, 2);
        let e = unwrap_err(finish_set(b"s", CallReply { status: code, used_gas: 1 }).0);
        assert_eq!(e.kind, ErrorKind::Unknown);
        assert_eq!(e.msg, "Failed to set a key in the db: s");
        let e = unwrap_err(finish_remove(b"r", CallReply { status: code, used_gas: 1 }).0);
        assert_eq!(e.kind, ErrorKind::Unknown);
        assert_eq!(e.msg, "Failed to delete a key in the db: r");
        let (res, _) = finish_range::<MemoryCursor>(
            gas_meter_t { handle: 1 },
            Some(b"a\"b"),
            Some(b"z"),
            ScanReply { status: code, used_gas: 4, iterator: iterator_t::default(), next_db: None },
        );
        let e = unwrap_err(res);
        assert_eq!(e.kind, ErrorKind::Unknown);
        assert_eq!(e.msg, "Failed to read the next key between Some(\"a\\\"b\") and Some(\"z\")");
    }
    let e = unwrap_err(finish_set(b"s", CallReply { status: STATUS_OTHER, used_gas: 1 }).0);
    assert_eq!(e.kind, ErrorKind::Unknown);
    assert_eq!(e.msg, "Failed to set a key in the db: s");
}
