//! How failures of the model providers are shown to the creator.

use vstd::prelude::*;

use crate::error::{AppError, AppErrorView};
use crate::json::{get_in, parse_json, parsed_json, str_eq, Json, JsonView};

verus! {

/// The message shown when a language model's reply cannot be read.
pub open spec fn unreadable_reply() -> Seq<char> {
    "语言模型返回的内容格式无效，请稍后重试。"@
}

/// The error for a language model reply that could not be decoded; the raw
/// upstream detail is kept out of the message.
pub fn language_response_read_error(detail: &str) -> (r: AppError)
    ensures
        r@ == AppErrorView::External(unreadable_reply()),
{
    AppError::External("语言模型返回的内容格式无效，请稍后重试。".to_owned())
}

/// The message shown when the selected model lacks the requested feature.
pub open spec fn unsupported_model() -> Seq<char> {
    "当前模型不支持此功能，请在设置中更换支持该功能的模型后重试。"@
}

/// The detail a provider's error reply gives the creator: the model
/// compatibility advice for an `UnsupportedModel` code, else the upstream
/// message when there is one.
pub open spec fn error_detail(reply: Option<JsonView>) -> Option<Seq<char>> {
    match reply {
        Some(document) => {
            let error = document.get("error"@);
            if get_in(error, "code"@) == Some(JsonView::Text("UnsupportedModel"@)) {
                Some(unsupported_model())
            } else {
                match get_in(error, "message"@) {
                    Some(JsonView::Text(m)) => if m.len() > 0 {
                        Some(m)
                    } else {
                        None
                    },
                    _ => None,
                }
            }
        },
        None => None,
    }
}

/// Read the detail of a provider's error reply body.
pub fn provider_error_detail(body: &str) -> (r: Option<String>)
    ensures
        crate::storage::opt_text_view(r) == error_detail(parsed_json(body@)),
{
    let document = parse_json(body);
    let document = match document {
        Some(d) => d,
        None => {
            return None;
        },
    };
    let error = document.get("error");
    let code_matches = match error {
        Some(e) => match e.get("code") {
            Some(Json::Text(c)) => str_eq(c.as_str(), "UnsupportedModel"),
            other => {
                proof {
                    match other {
                        Some(v) => crate::json::lemma_view_variant(*v),
                        None => {},
                    }
                }
                false
            },
        },
        None => false,
    };
    if code_matches {
        return Some("当前模型不支持此功能，请在设置中更换支持该功能的模型后重试。".to_owned());
    }
    match error {
        Some(e) => match e.get("message") {
            Some(Json::Text(m)) => if crate::text::chars_of(m.as_str()).len() > 0 {
                Some(m.clone())
            } else {
                None
            },
            other => {
                proof {
                    match other {
                        Some(v) => crate::json::lemma_view_variant(*v),
                        None => {},
                    }
                }
                None
            },
        },
        None => None,
    }
}

} // verus!
