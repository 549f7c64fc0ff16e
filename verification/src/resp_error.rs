//! Constructors of the standard response errors.

use vstd::prelude::*;
use crate::resp::{RespError, error_of_kind, error_message};
use crate::text::{starts_with, str_starts_with};

verus! {

/// The error `10001`: "无效的动作请求", with the detail `msg`.
pub fn bad_request(msg: &str) -> (r: RespError)
    ensures
        r.retcode == 10001,
        r.message@ == error_message("无效的动作请求"@, msg@),
{
    error_of_kind(10001, "无效的动作请求", msg)
}

/// The error `10002`: "不支持的动作", with the detail `msg`.
pub fn unsupported_action(msg: &str) -> (r: RespError)
    ensures
        r.retcode == 10002,
        r.message@ == error_message("不支持的动作"@, msg@),
{
    error_of_kind(10002, "不支持的动作", msg)
}

/// The error `10003`: "无效的动作请求参数", with the detail `msg`.
pub fn bad_param(msg: &str) -> (r: RespError)
    ensures
        r.retcode == 10003,
        r.message@ == error_message("无效的动作请求参数"@, msg@),
{
    error_of_kind(10003, "无效的动作请求参数", msg)
}

/// The error `10004`: "不支持的动作请求参数", with the detail `msg`.
pub fn unsupported_param(msg: &str) -> (r: RespError)
    ensures
        r.retcode == 10004,
        r.message@ == error_message("不支持的动作请求参数"@, msg@),
{
    error_of_kind(10004, "不支持的动作请求参数", msg)
}

/// The error `10005`: "不支持的消息段类型", with the detail `msg`.
pub fn unsupported_segment(msg: &str) -> (r: RespError)
    ensures
        r.retcode == 10005,
        r.message@ == error_message("不支持的消息段类型"@, msg@),
{
    error_of_kind(10005, "不支持的消息段类型", msg)
}

/// The error `10006`: "无效的消息段参数", with the detail `msg`.
pub fn bad_segment_data(msg: &str) -> (r: RespError)
    ensures
        r.retcode == 10006,
        r.message@ == error_message("无效的消息段参数"@, msg@),
{
    error_of_kind(10006, "无效的消息段参数", msg)
}

/// The error `10007`: "不支持的消息段参数", with the detail `msg`.
pub fn unsupported_segment_data(msg: &str) -> (r: RespError)
    ensures
        r.retcode == 10007,
        r.message@ == error_message("不支持的消息段参数"@, msg@),
{
    error_of_kind(10007, "不支持的消息段参数", msg)
}

/// The error `10101`: "Who Am I", with the detail `msg`.
pub fn who_am_i(msg: &str) -> (r: RespError)
    ensures
        r.retcode == 10101,
        r.message@ == error_message("Who Am I"@, msg@),
{
    error_of_kind(10101, "Who Am I", msg)
}

/// The error `20001`: "动作处理器实现错误", with the detail `msg`.
pub fn bad_handler(msg: &str) -> (r: RespError)
    ensures
        r.retcode == 20001,
        r.message@ == error_message("动作处理器实现错误"@, msg@),
{
    error_of_kind(20001, "动作处理器实现错误", msg)
}

/// The error `20002`: "动作处理器运行时抛出异常", with the detail `msg`.
pub fn internal_handler(msg: &str) -> (r: RespError)
    ensures
        r.retcode == 20002,
        r.message@ == error_message("动作处理器运行时抛出异常"@, msg@),
{
    error_of_kind(20002, "动作处理器运行时抛出异常", msg)
}

/// The error `31000`: "数据库错误", with the detail `msg`.
pub fn database_error(msg: &str) -> (r: RespError)
    ensures
        r.retcode == 31000,
        r.message@ == error_message("数据库错误"@, msg@),
{
    error_of_kind(31000, "数据库错误", msg)
}

/// The error `32000`: "文件系统错误", with the detail `msg`.
pub fn filesystem_error(msg: &str) -> (r: RespError)
    ensures
        r.retcode == 32000,
        r.message@ == error_message("文件系统错误"@, msg@),
{
    error_of_kind(32000, "文件系统错误", msg)
}

/// The error `33000`: "网络错误", with the detail `msg`.
pub fn network_error(msg: &str) -> (r: RespError)
    ensures
        r.retcode == 33000,
        r.message@ == error_message("网络错误"@, msg@),
{
    error_of_kind(33000, "网络错误", msg)
}

/// The error `34000`: "机器人平台错误", with the detail `msg`.
pub fn platform_error(msg: &str) -> (r: RespError)
    ensures
        r.retcode == 34000,
        r.message@ == error_message("机器人平台错误"@, msg@),
{
    error_of_kind(34000, "机器人平台错误", msg)
}

/// The error `36000`: "I Am Tired!", with the detail `msg`.
pub fn tired(msg: &str) -> (r: RespError)
    ensures
        r.retcode == 36000,
        r.message@ == error_message("I Am Tired!"@, msg@),
{
    error_of_kind(36000, "I Am Tired!", msg)
}

} // verus!

verus! {

/// The response error for an action request that could not be decoded,
/// with the decoder's message `msg`: a missing field is bad segment data
/// (10006), anything else an unsupported action (10002).
pub fn action_decode_error(msg: &str) -> (r: RespError)
    ensures
        if starts_with(msg@, "missing field"@) {
            r.retcode == 10006 && r.message@ == error_message("无效的消息段参数"@, msg@)
        } else {
            r.retcode == 10002 && r.message@ == error_message("不支持的动作"@, msg@)
        },
{
    if str_starts_with(msg, "missing field") {
        bad_segment_data(msg)
    } else {
        unsupported_action(msg)
    }
}

} // verus!
