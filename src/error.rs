//! Error kinds shared by the HTTP and socket surfaces, with their wire codes,
//! messages and HTTP status codes.

use vstd::prelude::*;

use crate::rooms::RoomError;

verus! {

#[derive(Debug, Clone, Copy, PartialEq, Eq, Structural)]
pub enum ApiError {
    BadRequest,
    Unauthorized,
    Forbidden,
    UsernameTaken,
    InvalidCredentials,
    TokenExpired,
    RateLimited,
    Internal,
}

impl ApiError {
    /// The wire code of the error.
    pub open spec fn wire_code(self) -> Seq<char> {
        match self {
            ApiError::BadRequest => "bad_request"@,
            ApiError::Unauthorized => "unauthorized"@,
            ApiError::Forbidden => "forbidden"@,
            ApiError::UsernameTaken => "username_taken"@,
            ApiError::InvalidCredentials => "invalid_credentials"@,
            ApiError::TokenExpired => "token_expired"@,
            ApiError::RateLimited => "rate_limited"@,
            ApiError::Internal => "internal_error"@,
        }
    }

    /// The HTTP status that answers the error.
    pub open spec fn http_status(self) -> u16 {
        match self {
            ApiError::BadRequest => 400,
            ApiError::Unauthorized | ApiError::InvalidCredentials | ApiError::TokenExpired => 401,
            ApiError::Forbidden => 403,
            ApiError::UsernameTaken => 409,
            ApiError::RateLimited => 429,
            ApiError::Internal => 500,
        }
    }

    /// The wire code and a message for people.
    pub fn code_message(&self) -> (r: (&'static str, &'static str))
        ensures
            r.0@ == self.wire_code(),
            r.1@.len() > 0,
    {
        proof {
            reveal_strlit("请求参数错误");
            reveal_strlit("未登录或登录已失效");
            reveal_strlit("无权限执行该操作");
            reveal_strlit("用户名已存在");
            reveal_strlit("账号或密码错误");
            reveal_strlit("登录已过期，请重新登录");
            reveal_strlit("请求过于频繁，请稍后再试");
            reveal_strlit("服务器内部错误");
        }
        match self {
            ApiError::BadRequest => ("bad_request", "请求参数错误"),
            ApiError::Unauthorized => ("unauthorized", "未登录或登录已失效"),
            ApiError::Forbidden => ("forbidden", "无权限执行该操作"),
            ApiError::UsernameTaken => ("username_taken", "用户名已存在"),
            ApiError::InvalidCredentials => ("invalid_credentials", "账号或密码错误"),
            ApiError::TokenExpired => ("token_expired", "登录已过期，请重新登录"),
            ApiError::RateLimited => ("rate_limited", "请求过于频繁，请稍后再试"),
            ApiError::Internal => ("internal_error", "服务器内部错误"),
        }
    }

    /// The HTTP status code of the error.
    pub fn status(&self) -> (r: u16)
        ensures
            r == self.http_status(),
    {
        match self {
            ApiError::BadRequest => 400,
            ApiError::Unauthorized | ApiError::InvalidCredentials | ApiError::TokenExpired => 401,
            ApiError::Forbidden => 403,
            ApiError::UsernameTaken => 409,
            ApiError::RateLimited => 429,
            ApiError::Internal => 500,
        }
    }
}

impl RoomError {
    /// The wire code of the error.
    pub open spec fn wire_code(self) -> Seq<char> {
        match self {
            RoomError::RoomNotFound => "room_not_found"@,
            RoomError::NotInRoom => "not_in_room"@,
            RoomError::SeatTaken => "seat_taken"@,
            RoomError::InvalidRoomState => "invalid_room_state"@,
            RoomError::MatchNotFound => "match_not_found"@,
            RoomError::Forbidden => "forbidden"@,
            RoomError::LeaveRoomFailed => "leave_room_failed"@,
        }
    }

    /// The wire code and a message for people.
    pub fn code_message(&self) -> (r: (&'static str, &'static str))
        ensures
            r.0@ == self.wire_code(),
            r.1@.len() > 0,
    {
        proof {
            reveal_strlit("房间不存在");
            reveal_strlit("未加入房间");
            reveal_strlit("座位已被占用");
            reveal_strlit("房间未在对局中");
            reveal_strlit("对局不存在");
            reveal_strlit("无权限执行该操作");
            reveal_strlit("退出房间失败");
        }
        match self {
            RoomError::RoomNotFound => ("room_not_found", "房间不存在"),
            RoomError::NotInRoom => ("not_in_room", "未加入房间"),
            RoomError::SeatTaken => ("seat_taken", "座位已被占用"),
            RoomError::InvalidRoomState => ("invalid_room_state", "房间未在对局中"),
            RoomError::MatchNotFound => ("match_not_found", "对局不存在"),
            RoomError::Forbidden => ("forbidden", "无权限执行该操作"),
            RoomError::LeaveRoomFailed => ("leave_room_failed", "退出房间失败"),
        }
    }
}

} // verus!
