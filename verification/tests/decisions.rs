use zlib::codec::{Flush, Status, MAX_CALL};
use zlib::error::{error_class, value_error, zlib_error, ExceptionClass, Failure};
use zlib::feeding::{
    announce, decide, decide_finish, next_chunk, next_room, outcome, Stop, CHUNKSIZE,
    MAX_CAPACITY,
};
use zlib::window::header_from_wbits;

#[test]
fn room_has_limits() {
    assert_eq!(next_room(16384, None, 0), 16384);
    assert_eq!(next_room(16384, None, 100), 16284);
    assert_eq!(next_room(16384, None, 16384), 16384);
    assert_eq!(next_room(16384, None, 40000), 9152);
    assert_eq!(next_room(1, None, 7), 1);
    assert_eq!(next_room(usize::MAX, None, 5), MAX_CALL - 5);
    assert_eq!(next_room(16384, None, MAX_CAPACITY - 3), 3);
    assert_eq!(next_room(16384, None, MAX_CAPACITY), 0);
    assert_eq!(next_room(16384, Some(100), 0), 100);
    assert_eq!(next_room(16384, Some(100), 99), 1);
    assert_eq!(next_room(16384, Some(100), 100), 0);
    assert_eq!(next_room(16384, Some(20000), 100), 16284);
    assert_eq!(next_room(16384, Some(20000), 16384), 3616);
}

#[test]
fn a_reply_is_followed_by_a_decision() {
    let running = Some(Status::Running);
    let stuck = Some(Status::BufError);
    let ended = Some(Status::StreamEnd);
    for last in [false, true] {
        assert_eq!(decide(None, false, false, last), Some(Stop::Invalid));
        assert_eq!(decide(None, true, true, last), Some(Stop::Invalid));
        assert_eq!(decide(ended, true, false, last), Some(Stop::StreamEnd));
        assert_eq!(decide(ended, true, true, last), Some(Stop::StreamEnd));
        assert_eq!(decide(ended, false, false, last), Some(Stop::StreamEnd));
        assert_eq!(decide(running, true, true, last), Some(Stop::LimitReached));
        assert_eq!(decide(stuck, true, true, last), Some(Stop::LimitReached));
        assert_eq!(decide(running, true, false, last), None);
    }
    assert_eq!(decide(running, false, false, true), Some(Stop::Exhausted));
    assert_eq!(decide(stuck, false, false, true), Some(Stop::Exhausted));
    assert_eq!(decide(running, false, false, false), None);
}

#[test]
fn the_end_is_announced_until_it_comes() {
    assert_eq!(decide_finish(None), Some(Stop::Invalid));
    assert_eq!(decide_finish(Some(Status::StreamEnd)), Some(Stop::StreamEnd));
    assert_eq!(decide_finish(Some(Status::Running)), None);
    assert_eq!(decide_finish(Some(Status::BufError)), None);
}

#[test]
fn the_last_chunk_is_announced() {
    assert_eq!(announce(true), Flush::Finish);
    assert_eq!(announce(false), Flush::NoFlush);
}

#[test]
fn chunks_have_a_limit() {
    assert_eq!(CHUNKSIZE, libc::c_uint::MAX as usize);
    assert_eq!(MAX_CALL, libc::c_uint::MAX as usize);
    assert_eq!(next_chunk(0), 0);
    assert_eq!(next_chunk(10), 10);
    assert_eq!(next_chunk(CHUNKSIZE), CHUNKSIZE);
    assert_eq!(next_chunk(CHUNKSIZE + 5), CHUNKSIZE);
}

#[test]
fn a_stop_becomes_an_outcome() {
    for stop in [Stop::Exhausted, Stop::StreamEnd, Stop::LimitReached] {
        assert_eq!(outcome(vec![1, 2], stop, "no").unwrap(), vec![1, 2]);
    }
    match outcome(vec![1], Stop::Invalid, "no") {
        Err(Failure::Raised(exception)) => {
            assert_eq!(exception.class, ExceptionClass::ZlibError);
            assert_eq!(exception.message, "no");
        }
        _ => panic!("an exception was expected"),
    }
    assert!(matches!(outcome(vec![], Stop::Overflow, "no"), Err(Failure::Overflow)));
    assert!(matches!(outcome(vec![], Stop::Stuck, "no"), Err(Failure::Stuck)));
}

#[test]
fn errors_have_a_class() {
    assert_eq!(error_class(), ("zlib", "error", "Exception"));
}

#[test]
fn exceptions_carry_their_message() {
    let exception = zlib_error("data");
    assert_eq!(exception.class, ExceptionClass::ZlibError);
    assert_eq!(exception.message, "data");
    let exception = value_error("argument");
    assert_eq!(exception.class, ExceptionClass::ValueError);
    assert_eq!(exception.message, "argument");
}

#[test]
fn the_window_argument_is_read() {
    assert_eq!(header_from_wbits(None), (true, 15));
    assert_eq!(header_from_wbits(Some(15)), (true, 15));
    assert_eq!(header_from_wbits(Some(9)), (true, 9));
    assert_eq!(header_from_wbits(Some(-15)), (false, 15));
    assert_eq!(header_from_wbits(Some(0)), (false, 0));
    assert_eq!(header_from_wbits(Some(127)), (true, 127));
    assert_eq!(header_from_wbits(Some(-127)), (false, 127));
}
