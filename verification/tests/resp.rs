use walle_core::error::WalleError;
use walle_core::resp::{Resp, RespError, RespValue};
use walle_core::resp_error;
use walle_core::value::Value;

#[test]
fn action_resp() {}

#[test]
fn ok_response_reads_as_its_data() {
    let r = Resp::ok(Value::Int(3), "fine");
    assert_eq!(r.status, "ok");
    assert_eq!(r.message, "fine");
    assert_eq!(r.as_result().ok(), Some(Value::Int(3)));
    let r = Resp::from_data(Value::Bool(true));
    assert_eq!(r.retcode, 0);
    assert_eq!(r.message, "");
    assert_eq!(r.as_result_downcast::<bool>(), Ok(true));
}

#[test]
fn failed_response_reads_as_its_error() {
    let e = resp_error::bad_param("missing user_id");
    assert_eq!(e.retcode, 10003);
    assert_eq!(e.message, "无效的动作请求参数:missing user_id");
    let r = Resp::from_error(e.clone());
    assert_eq!(r.status, "failed");
    assert_eq!(r.data, Value::Null);
    match r.as_result() {
        Err(back) => {
            assert_eq!(back.retcode, e.retcode);
            assert_eq!(back.message, e.message);
        }
        Ok(_) => panic!("a failed response read as data"),
    }
    let r = Resp::failed(36000, Value::Null, "later");
    assert_eq!(
        r.as_result_downcast::<i64>(),
        Err(WalleError::RespError(RespError { retcode: 36000, message: "later".to_owned() }))
    );
}

#[test]
fn error_messages_drop_an_empty_detail() {
    assert_eq!(resp_error::tired("").message, "I Am Tired!");
    assert_eq!(resp_error::who_am_i("x").message, "Who Am I:x");
    assert_eq!(resp_error::unsupported_action("").retcode, 10002);
    assert_eq!(resp_error::bad_request("").retcode, 10001);
    assert_eq!(resp_error::unsupported_param("").retcode, 10004);
    assert_eq!(resp_error::unsupported_segment("").retcode, 10005);
    assert_eq!(resp_error::bad_segment_data("").retcode, 10006);
    assert_eq!(resp_error::unsupported_segment_data("").retcode, 10007);
    assert_eq!(resp_error::bad_handler("").retcode, 20001);
    assert_eq!(resp_error::internal_handler("").retcode, 20002);
    assert_eq!(resp_error::database_error("").retcode, 31000);
    assert_eq!(resp_error::filesystem_error("").retcode, 32000);
    assert_eq!(resp_error::network_error("").retcode, 33000);
    assert_eq!(resp_error::platform_error("").retcode, 34000);
}

#[test]
fn error_texts() {
    assert_eq!(RespError { retcode: 10002, message: "m".to_owned() }.describe(), "RespError[10002]: m");
    assert_eq!(
        WalleError::ValueTypeNotMatch("i64".to_owned(), "Str".to_owned()).describe(),
        "ValueTypeNotMatch(\"i64\", \"Str\")"
    );
    assert_eq!(WalleError::MapMissedKey("k".to_owned()).describe(), "MapMissedKey(\"k\")");
    assert_eq!(WalleError::NotStarted.describe(), "NotStarted");
}

#[test]
fn resp_value_reads_the_data() {
    let r = Resp::failed(1, Value::Str("s".to_owned()), "");
    match RespValue::<String>::try_from_resp(r) {
        Ok(v) => assert_eq!(v.0, "s"),
        Err(e) => panic!("{:?}", e),
    }
}

#[test]
fn decode_errors_choose_their_code() {
    assert_eq!(resp_error::action_decode_error("missing field `params`").retcode, 10006);
    assert_eq!(resp_error::action_decode_error("unknown variant `x`").retcode, 10002);
    assert_eq!(resp_error::action_decode_error("missing fiel").retcode, 10002);
}
