//! The ways a request fails, what the user is told, and the error page
//! each one is answered with.
use vstd::prelude::*;

use crate::text::string_of;

verus! {

/// A failed request. Failures of the database, the templates or the session
/// are all `Internal`.
#[derive(Debug, Clone)]
pub enum AppError {
    BadRequest(String),
    NotFound(String),
    Unauthorized,
    Forbidden,
    Internal,
}

/// The status, title and message of an error page.
pub struct ErrorPage {
    pub status: u16,
    pub title: String,
    pub message: String,
}

impl AppError {
    pub fn bad_request(msg: &str) -> (r: Self)
        ensures
            r matches AppError::BadRequest(m) && m@ == msg@,
    {
        AppError::BadRequest(string_of(msg))
    }

    pub fn not_found(msg: &str) -> (r: Self)
        ensures
            r matches AppError::NotFound(m) && m@ == msg@,
    {
        AppError::NotFound(string_of(msg))
    }

    /// What the user is told: the message of a refused or missing request;
    /// a fixed sentence otherwise.
    pub fn user_message(&self) -> (r: String)
        ensures
            r@ == (match self {
                AppError::BadRequest(m) => m@,
                AppError::NotFound(m) => m@,
                AppError::Unauthorized => "请先登录"@,
                AppError::Forbidden => "请求被拒绝"@,
                AppError::Internal => "服务器繁忙，请稍后重试"@,
            }),
    {
        match self {
            AppError::BadRequest(m) => string_of(m.as_str()),
            AppError::NotFound(m) => string_of(m.as_str()),
            AppError::Unauthorized => string_of("请先登录"),
            AppError::Forbidden => string_of("请求被拒绝"),
            AppError::Internal => string_of("服务器繁忙，请稍后重试"),
        }
    }

    /// The error page: a request without a login is answered as if the
    /// page did not exist.
    pub fn page(&self) -> (r: ErrorPage)
        ensures
            match self {
                AppError::Unauthorized => r.status == 404 && r.title@ == "未找到"@ && r.message@
                    == "页面不存在"@,
                AppError::Forbidden => r.status == 403 && r.title@ == "请求被拒绝"@ && r.message@
                    == "请求无效或已过期，请刷新页面后重试"@,
                AppError::NotFound(m) => r.status == 404 && r.title@ == "未找到"@ && r.message@
                    == m@,
                AppError::BadRequest(m) => r.status == 400 && r.title@ == "请求无效"@ && r.message@
                    == m@,
                AppError::Internal => r.status == 500 && r.title@ == "服务器错误"@ && r.message@
                    == "服务器繁忙，请稍后重试"@,
            },
    {
        match self {
            AppError::Unauthorized => ErrorPage {
                status: 404,
                title: string_of("未找到"),
                message: string_of("页面不存在"),
            },
            AppError::Forbidden => ErrorPage {
                status: 403,
                title: string_of("请求被拒绝"),
                message: string_of("请求无效或已过期，请刷新页面后重试"),
            },
            AppError::NotFound(m) => ErrorPage {
                status: 404,
                title: string_of("未找到"),
                message: string_of(m.as_str()),
            },
            AppError::BadRequest(m) => ErrorPage {
                status: 400,
                title: string_of("请求无效"),
                message: string_of(m.as_str()),
            },
            AppError::Internal => ErrorPage {
                status: 500,
                title: string_of("服务器错误"),
                message: string_of("服务器繁忙，请稍后重试"),
            },
        }
    }
}

} // verus!
