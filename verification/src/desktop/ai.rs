//! AI completion requests: what the bridge accepts, the errors it reports,
//! and the decisions taken while a completion is fetched.

use vstd::prelude::*;

use crate::text::string_from_chars;
use crate::wire::str_bytes;
use vstd::utf8::encode_utf8;

verus! {

/// Longest model name, in bytes.
pub const MAX_MODEL_LEN: usize = 64;

/// Most messages in one request.
pub const MAX_MESSAGES: usize = 32;

/// Most message content in one request, in bytes.
pub const MAX_MESSAGE_BYTES: usize = 65536;

/// Longest API key, in bytes.
pub const MAX_API_KEY_BYTES: usize = 512;

/// Largest completion response body, in bytes.
pub const MAX_RESPONSE_BYTES: usize = 1048576;

/// One chat message: its role and text.
#[derive(Clone, Debug)]
pub struct AiChatMessageDto {
    pub role: String,
    pub content: String,
}

/// A completion request: its id, the model and the conversation.
#[derive(Clone, Debug)]
pub struct AiCompletionRequestDto {
    pub request_id: String,
    pub model: String,
    pub messages: Vec<AiChatMessageDto>,
}

/// The kinds of AI failure the bridge reports.
#[derive(Clone, Copy, Debug, PartialEq, Eq, Structural)]
pub enum AiErrorCode {
    AiUnavailable,
    AiKeyMissing,
    AiInvalidRequest,
    AiCancelled,
    AiTimeout,
    AiHttpError,
    AiResponseTooLarge,
    AiInvalidResponse,
    AiCredentialStoreError,
}

/// An AI failure: its kind and a message for the user.
#[derive(Clone, Debug)]
pub struct AiErrorDto {
    pub code: AiErrorCode,
    pub message: String,
}

/// Whether an API key is stored.
#[derive(Clone, Copy, Debug, PartialEq, Eq, Structural)]
pub struct AiCredentialStatusDto {
    pub configured: bool,
}

/// An error of kind `code` with message `message`.
pub open spec fn ai_error(e: AiErrorDto, code: AiErrorCode, message: Seq<char>) -> bool {
    e.code == code && e.message@ == message
}

impl AiErrorDto {
    /// A rejected request, with the reason.
    pub fn invalid_request(message: &str) -> (e: AiErrorDto)
        ensures
            ai_error(e, AiErrorCode::AiInvalidRequest, message@),
    {
        AiErrorDto { code: AiErrorCode::AiInvalidRequest, message: message.to_owned() }
    }

    /// The credential store cannot be reached.
    pub fn credential_store() -> (e: AiErrorDto)
        ensures
            ai_error(e, AiErrorCode::AiCredentialStoreError, "无法访问 Windows 凭据库"@),
    {
        AiErrorDto { code: AiErrorCode::AiCredentialStoreError, message: "无法访问 Windows 凭据库".to_owned() }
    }

    /// No API key is configured.
    pub fn key_missing() -> (e: AiErrorDto)
        ensures
            ai_error(e, AiErrorCode::AiKeyMissing, "尚未配置 DeepSeek API Key"@),
    {
        AiErrorDto { code: AiErrorCode::AiKeyMissing, message: "尚未配置 DeepSeek API Key".to_owned() }
    }

    /// The service failed: with the HTTP status it answered, if any.
    pub fn http_error(status: Option<u16>) -> (e: AiErrorDto)
        ensures
            e.code == AiErrorCode::AiHttpError,
            str_bytes(e.message) == http_error_message(status),
    {
        let message = match status {
            None => "AI 服务请求失败".to_owned(),
            Some(status) => {
                let mut text = "AI 服务返回 HTTP ".to_owned();
                crate::text::append_decimal(&mut text, status as usize);
                proof {
                    crate::text::lemma_encode_utf8_concat(Seq::empty(), "AI 服务返回 HTTP "@);
                }
                text
            },
        };
        AiErrorDto { code: AiErrorCode::AiHttpError, message }
    }

    /// The request was cancelled.
    pub fn cancelled() -> (e: AiErrorDto)
        ensures
            ai_error(e, AiErrorCode::AiCancelled, "AI 请求已取消"@),
    {
        AiErrorDto { code: AiErrorCode::AiCancelled, message: "AI 请求已取消".to_owned() }
    }

    /// The request timed out.
    pub fn timeout() -> (e: AiErrorDto)
        ensures
            ai_error(e, AiErrorCode::AiTimeout, "AI 请求超时"@),
    {
        AiErrorDto { code: AiErrorCode::AiTimeout, message: "AI 请求超时".to_owned() }
    }

    /// The response was over the size limit.
    pub fn response_too_large() -> (e: AiErrorDto)
        ensures
            ai_error(e, AiErrorCode::AiResponseTooLarge, "AI 响应超过 1 MiB 上限"@),
    {
        AiErrorDto { code: AiErrorCode::AiResponseTooLarge, message: "AI 响应超过 1 MiB 上限".to_owned() }
    }

    /// The response could not be understood.
    pub fn invalid_response() -> (e: AiErrorDto)
        ensures
            ai_error(e, AiErrorCode::AiInvalidResponse, "AI 服务返回了无法解析的响应"@),
    {
        AiErrorDto { code: AiErrorCode::AiInvalidResponse, message: "AI 服务返回了无法解析的响应".to_owned() }
    }
}

/// The message of an HTTP failure (as UTF-8): the status in decimal when
/// the service answered.
pub open spec fn http_error_message(status: Option<u16>) -> Seq<u8> {
    match status {
        None => encode_utf8("AI 服务请求失败"@),
        Some(s) => encode_utf8("AI 服务返回 HTTP "@) + crate::text::decimal(s as nat),
    }
}

/// An ASCII hexadecimal digit, in either case.
pub open spec fn uuid_hex_digit(b: u8) -> bool {
    ||| 0x30 <= b <= 0x39
    ||| 0x41 <= b <= 0x46
    ||| 0x61 <= b <= 0x66
}

/// Hexadecimal digits throughout.
pub open spec fn all_uuid_hex(s: Seq<u8>) -> bool {
    forall|i: int| 0 <= i < s.len() ==> uuid_hex_digit(#[trigger] s[i])
}

/// The hyphenated form: 36 bytes, hyphens at 8, 13, 18 and 23, and
/// hexadecimal digits everywhere else.
pub open spec fn hyphenated_uuid(s: Seq<u8>) -> bool {
    &&& s.len() == 36
    &&& s[8] == 0x2d && s[13] == 0x2d && s[18] == 0x2d && s[23] == 0x2d
    &&& forall|i: int|
        0 <= i < 36 && i != 8 && i != 13 && i != 18 && i != 23 ==> uuid_hex_digit(#[trigger] s[i])
}

/// An ASCII byte in lower case.
pub open spec fn ascii_lower(b: u8) -> u8 {
    if 0x41 <= b <= 0x5a {
        (b + 0x20) as u8
    } else {
        b
    }
}

/// The nine bytes `urn:uuid:`, in any mix of case.
pub open spec fn urn_uuid_prefix(s: Seq<u8>) -> bool {
    &&& s.len() == 9
    &&& forall|i: int| 0 <= i < 9 ==> ascii_lower(#[trigger] s[i]) == encode_utf8("urn:uuid:"@)[i]
}

/// Whether UTF-8 text is a UUID: 32 hexadecimal digits; the hyphenated
/// form; the hyphenated form in braces; or the hyphenated form after a
/// `urn:uuid:` prefix in any case. Nothing else, no surrounding space.
pub open spec fn uuid_text(b: Seq<u8>) -> bool {
    if b.len() == 32 {
        all_uuid_hex(b)
    } else if b.len() == 36 {
        hyphenated_uuid(b)
    } else if b.len() == 38 {
        b[0] == 0x7b && b[37] == 0x7d && hyphenated_uuid(b.subrange(1, 37))
    } else if b.len() == 45 {
        urn_uuid_prefix(b.subrange(0, 9)) && hyphenated_uuid(b.subrange(9, 45))
    } else {
        false
    }
}

/// Whether `text` is a UUID as the `uuid` crate parses it; see `uuid_text`.
pub open spec fn parses_as_uuid(text: Seq<char>) -> bool {
    uuid_text(encode_utf8(text))
}

/// Calls `uuid::Uuid::parse_str` and reports whether it succeeded. Trusted:
/// the crate's parser (`try_parse` over the text's bytes) accepts by length
/// exactly the forms of `uuid_text`: 32 digits, 36 hyphenated, 38 braced,
/// 45 with the `urn:uuid:` prefix compared without regard to case; a digit
/// is `0-9`, `a-f` or `A-F`.
#[verifier::external_body]
fn uuid_parses(text: &str) -> (r: bool)
    ensures
        r == parses_as_uuid(text@),
{
    uuid::Uuid::parse_str(text).is_ok()
}

/// Bytes a model name may hold: ASCII letters and digits, `.`, `_`, `:`
/// and `-`.
pub open spec fn model_byte_allowed(b: u8) -> bool {
    ||| 0x30 <= b <= 0x39
    ||| 0x41 <= b <= 0x5a
    ||| 0x61 <= b <= 0x7a
    ||| b == 0x2e
    ||| b == 0x5f
    ||| b == 0x3a
    ||| b == 0x2d
}

/// A model name is 1 to 64 allowed bytes (so it has no surrounding space).
pub open spec fn model_valid(m: Seq<u8>) -> bool {
    &&& 1 <= m.len() <= MAX_MODEL_LEN
    &&& forall|i: int| 0 <= i < m.len() ==> model_byte_allowed(#[trigger] m[i])
}

/// Only system and user messages may be sent.
pub open spec fn role_allowed(role: Seq<char>) -> bool {
    role == "system"@ || role == "user"@
}

/// The total content size of the messages, in bytes.
pub open spec fn content_total(m: Seq<AiChatMessageDto>) -> int
    decreases m.len(),
{
    if m.len() == 0 {
        0
    } else {
        content_total(m.drop_last()) + str_bytes(m.last().content).len()
    }
}

/// Why a request is refused, checked in order: an id that is not a UUID, a
/// bad model name, 0 or over 32 messages, a role other than system or user,
/// content whose size overflows, content over 64 KiB; `None` when it is
/// accepted.
pub open spec fn request_problem(r: AiCompletionRequestDto, id_parses: bool) -> Option<Seq<char>> {
    if !id_parses {
        Some("请求 ID 必须是有效的 UUID"@)
    } else if !model_valid(str_bytes(r.model)) {
        Some("模型名称只能包含字母、数字、点、下划线、冒号或连字符，且最多 64 个字符"@)
    } else if r.messages@.len() == 0 || r.messages@.len() > MAX_MESSAGES {
        Some("消息数量必须介于 1 到 32 之间"@)
    } else if exists|i: int| 0 <= i < r.messages@.len() && !role_allowed(#[trigger] r.messages@[i].role@) {
        Some("消息角色只允许 system 或 user"@)
    } else if content_total(r.messages@) > usize::MAX {
        Some("消息内容过大"@)
    } else if content_total(r.messages@) > MAX_MESSAGE_BYTES {
        Some("消息内容总计不得超过 64 KiB"@)
    } else {
        None
    }
}

/// What checking a request gives, as a result.
pub open spec fn request_check(r: Result<(), AiErrorDto>, problem: Option<Seq<char>>) -> bool {
    match problem {
        None => r is Ok,
        Some(m) => r matches Err(e) && ai_error(e, AiErrorCode::AiInvalidRequest, m),
    }
}

/// Whether `b` is an ASCII letter or digit, or one of `.`, `_`, `:`, `-`.
pub open spec fn ascii_model_char(b: u8) -> bool {
    ||| ('0' as u8) <= b <= ('9' as u8)
    ||| ('a' as u8) <= b <= ('z' as u8)
    ||| ('A' as u8) <= b <= ('Z' as u8)
    ||| b == ('.' as u8) || b == ('_' as u8) || b == (':' as u8) || b == ('-' as u8)
}

/// A model name passes the model check exactly when it is 1 to 64 bytes of
/// ASCII letters, digits, `.`, `_`, `:` and `-`; so with a valid id, a
/// request is never refused for such a model name (for example
/// `deepseek-v3`), and always for a name with any other byte, such as a
/// space or a slash.
pub proof fn lemma_model_names(r: AiCompletionRequestDto, id_parses: bool)
    ensures
        model_valid(str_bytes(r.model)) <==> (1 <= str_bytes(r.model).len() <= 64 && forall|i: int|
            0 <= i < str_bytes(r.model).len() ==> ascii_model_char(#[trigger] str_bytes(r.model)[i])),
        id_parses && model_valid(str_bytes(r.model)) ==> request_problem(r, id_parses)
            != Some("模型名称只能包含字母、数字、点、下划线、冒号或连字符，且最多 64 个字符"@),
        id_parses && !model_valid(str_bytes(r.model)) ==> request_problem(r, id_parses)
            == Some("模型名称只能包含字母、数字、点、下划线、冒号或连字符，且最多 64 个字符"@),
{
    let m = str_bytes(r.model);
    assert forall|i: int| 0 <= i < m.len() implies model_byte_allowed(#[trigger] m[i]) == ascii_model_char(m[i]) by {}
    if id_parses && model_valid(m) {
        reveal_strlit("模型名称只能包含字母、数字、点、下划线、冒号或连字符，且最多 64 个字符");
        reveal_strlit("消息数量必须介于 1 到 32 之间");
        reveal_strlit("消息角色只允许 system 或 user");
        reveal_strlit("消息内容过大");
        reveal_strlit("消息内容总计不得超过 64 KiB");
        let model_msg = "模型名称只能包含字母、数字、点、下划线、冒号或连字符，且最多 64 个字符"@;
        assert(model_msg != "消息数量必须介于 1 到 32 之间"@ && model_msg != "消息角色只允许 system 或 user"@
            && model_msg != "消息内容过大"@ && model_msg != "消息内容总计不得超过 64 KiB"@) by {
            assert(model_msg.len() != "消息数量必须介于 1 到 32 之间"@.len());
            assert(model_msg.len() != "消息角色只允许 system 或 user"@.len());
            assert(model_msg.len() != "消息内容过大"@.len());
            assert(model_msg.len() != "消息内容总计不得超过 64 KiB"@.len());
        }
    }
}

fn model_name_valid(model: &str) -> (b: bool)
    ensures
        b == model_valid(encode_utf8(model@)),
        b <==> (1 <= encode_utf8(model@).len() <= MAX_MODEL_LEN && forall|i: int|
            0 <= i < encode_utf8(model@).len() ==> ascii_model_char(#[trigger] encode_utf8(model@)[i])),
{
    let bytes = model.as_bytes();
    if bytes.len() == 0 || bytes.len() > MAX_MODEL_LEN {
        return false;
    }
    let mut i: usize = 0;
    while i < bytes.len()
        invariant
            i <= bytes@.len(),
            bytes@ == encode_utf8(model@),
            forall|k: int| 0 <= k < i ==> model_byte_allowed(#[trigger] bytes@[k]),
        decreases bytes@.len() - i,
    {
        let b = bytes[i];
        if !((0x30 <= b && b <= 0x39) || (0x41 <= b && b <= 0x5a) || (0x61 <= b && b <= 0x7a) || b == 0x2e
            || b == 0x5f || b == 0x3a || b == 0x2d) {
            proof {
                assert(!model_byte_allowed(bytes@[i as int]));
            }
            return false;
        }
        i = i + 1;
    }
    true
}

fn roles_allowed(messages: &Vec<AiChatMessageDto>) -> (b: bool)
    ensures
        b == forall|i: int| 0 <= i < messages@.len() ==> role_allowed(#[trigger] messages@[i].role@),
{
    let mut i: usize = 0;
    while i < messages.len()
        invariant
            i <= messages@.len(),
            forall|k: int| 0 <= k < i ==> role_allowed(#[trigger] messages@[k].role@),
        decreases messages@.len() - i,
    {
        let role = messages[i].role.as_str();
        proof {
            reveal_strlit("system");
            reveal_strlit("user");
        }
        let is_system = crate::bytes::bytes_equal(role.as_bytes(), "system".as_bytes());
        let is_user = crate::bytes::bytes_equal(role.as_bytes(), "user".as_bytes());
        proof {
            vstd::utf8::encode_utf8_decode_utf8(role@);
            vstd::utf8::encode_utf8_decode_utf8("system"@);
            vstd::utf8::encode_utf8_decode_utf8("user"@);
        }
        if !is_system && !is_user {
            return false;
        }
        i = i + 1;
    }
    true
}

/// The total content size, or `None` when it overflows.
fn content_size(messages: &Vec<AiChatMessageDto>) -> (r: Option<usize>)
    ensures
        match r {
            Some(n) => n == content_total(messages@),
            None => content_total(messages@) > usize::MAX,
        },
{
    let mut total: usize = 0;
    let mut i: usize = 0;
    proof {
        assert(messages@.take(0) =~= Seq::<AiChatMessageDto>::empty());
    }
    while i < messages.len()
        invariant
            i <= messages@.len(),
            total == content_total(messages@.take(i as int)),
        decreases messages@.len() - i,
    {
        proof {
            assert(messages@.take(i + 1).drop_last() =~= messages@.take(i as int));
            lemma_content_total_prefix(messages@, i + 1);
        }
        let len = messages[i].content.as_str().as_bytes().len();
        proof {
            assert(messages@.take(i + 1).last() == messages@[i as int]);
            assert(len == str_bytes(messages@[i as int].content).len());
        }
        match total.checked_add(len) {
            Some(t) => {
                total = t;
            },
            None => {
                return None;
            },
        }
        i = i + 1;
    }
    proof {
        assert(messages@.take(i as int) =~= messages@);
    }
    Some(total)
}

/// Content totals grow with the prefix.
proof fn lemma_content_total_prefix(m: Seq<AiChatMessageDto>, k: int)
    requires
        0 <= k <= m.len(),
    ensures
        content_total(m.take(k)) <= content_total(m),
    decreases m.len(),
{
    if k < m.len() {
        assert(m.drop_last().take(k) =~= m.take(k));
        lemma_content_total_prefix(m.drop_last(), k);
    } else {
        assert(m.take(k) =~= m);
    }
}

impl AiCompletionRequestDto {
    /// Checks the request given whether its id parses as a UUID; see
    /// `request_problem`.
    pub fn validate_with(&self, id_parses: bool) -> (r: Result<(), AiErrorDto>)
        ensures
            request_check(r, request_problem(*self, id_parses)),
    {
        if !id_parses {
            return Err(AiErrorDto::invalid_request("请求 ID 必须是有效的 UUID"));
        }
        if !model_name_valid(self.model.as_str()) {
            return Err(
                AiErrorDto::invalid_request(
                    "模型名称只能包含字母、数字、点、下划线、冒号或连字符，且最多 64 个字符",
                ),
            );
        }
        if self.messages.len() == 0 || self.messages.len() > MAX_MESSAGES {
            return Err(AiErrorDto::invalid_request("消息数量必须介于 1 到 32 之间"));
        }
        if !roles_allowed(&self.messages) {
            return Err(AiErrorDto::invalid_request("消息角色只允许 system 或 user"));
        }
        let total = match content_size(&self.messages) {
            Some(t) => t,
            None => {
                return Err(AiErrorDto::invalid_request("消息内容过大"));
            },
        };
        if total > MAX_MESSAGE_BYTES {
            return Err(AiErrorDto::invalid_request("消息内容总计不得超过 64 KiB"));
        }
        Ok(())
    }

    /// Checks the request: its id must parse as a UUID, then see
    /// `request_problem`.
    pub fn validate(&self) -> (r: Result<(), AiErrorDto>)
        ensures
            request_check(r, request_problem(*self, parses_as_uuid(self.request_id@))),
    {
        let id_parses = uuid_parses(self.request_id.as_str());
        self.validate_with(id_parses)
    }
}

/// Control characters (Unicode category Cc): U+0000 to U+001F and U+007F
/// to U+009F.
pub open spec fn is_control(c: char) -> bool {
    (c as u32) <= 0x1f || (0x7f <= (c as u32) && (c as u32) <= 0x9f)
}

/// Characters with the Unicode White_Space property.
pub open spec fn is_whitespace(c: char) -> bool {
    let v = c as u32;
    ||| 0x09 <= v <= 0x0d
    ||| v == 0x20
    ||| v == 0x85
    ||| v == 0xa0
    ||| v == 0x1680
    ||| 0x2000 <= v <= 0x200a
    ||| v == 0x2028
    ||| v == 0x2029
    ||| v == 0x202f
    ||| v == 0x205f
    ||| v == 0x3000
}

/// An API key is 1 to 512 bytes, not all whitespace, with no control
/// character.
pub open spec fn api_key_valid(key: Seq<char>) -> bool {
    &&& 1 <= encode_utf8(key).len() <= MAX_API_KEY_BYTES
    &&& exists|i: int| 0 <= i < key.len() && !is_whitespace(#[trigger] key[i])
    &&& forall|i: int| 0 <= i < key.len() ==> !is_control(#[trigger] key[i])
}

fn char_is_control(c: char) -> (b: bool)
    ensures
        b == is_control(c),
{
    let v = c as u32;
    v <= 0x1f || (0x7f <= v && v <= 0x9f)
}

fn char_is_whitespace(c: char) -> (b: bool)
    ensures
        b == is_whitespace(c),
{
    let v = c as u32;
    (0x09 <= v && v <= 0x0d) || v == 0x20 || v == 0x85 || v == 0xa0 || v == 0x1680 || (0x2000 <= v && v
        <= 0x200a) || v == 0x2028 || v == 0x2029 || v == 0x202f || v == 0x205f || v == 0x3000
}

/// Checks an API key before it is stored; see `api_key_valid`.
pub fn validate_api_key(api_key: &str) -> (r: Result<(), AiErrorDto>)
    ensures
        r is Ok <==> api_key_valid(api_key@),
        r matches Err(e) ==> ai_error(
            e,
            AiErrorCode::AiInvalidRequest,
            "API Key 必须为 1 到 512 字节且不能包含控制字符"@,
        ),
{
    let len = api_key.as_bytes().len();
    let mut any_visible = false;
    let mut any_control = false;
    for c in it: api_key.chars()
        invariant
            it.seq() == api_key@,
            any_visible == exists|i: int| 0 <= i < it.index() && !is_whitespace(#[trigger] api_key@[i]),
            any_control == exists|i: int| 0 <= i < it.index() && is_control(#[trigger] api_key@[i]),
    {
        if !char_is_whitespace(c) {
            any_visible = true;
        }
        if char_is_control(c) {
            any_control = true;
        }
    }
    proof {
        assert(len == encode_utf8(api_key@).len());
    }
    if len == 0 || len > MAX_API_KEY_BYTES || !any_visible || any_control {
        return Err(AiErrorDto::invalid_request("API Key 必须为 1 到 512 字节且不能包含控制字符"));
    }
    Ok(())
}

/// Whether a stored key counts as configured: present and not empty.
pub open spec fn key_configured(key: Option<String>) -> bool {
    key matches Some(k) && k@.len() > 0
}

/// The credential status from what the store answered (`Err` when it
/// could not be read: `AiCredentialStoreError`).
pub fn credential_status_from(stored: Result<Option<String>, ()>) -> (r: Result<AiCredentialStatusDto, AiErrorDto>)
    ensures
        match stored {
            Ok(key) => r == Ok::<AiCredentialStatusDto, AiErrorDto>(
                AiCredentialStatusDto { configured: key_configured(key) },
            ),
            Err(()) => r matches Err(e) && ai_error(e, AiErrorCode::AiCredentialStoreError, "无法访问 Windows 凭据库"@),
        },
{
    match stored {
        Ok(key) => {
            let configured = match &key {
                Some(k) => k.as_str().as_bytes().len() > 0,
                None => false,
            };
            proof {
                if let Some(k) = key {
                    assert(k@.len() > 0 <==> vstd::utf8::encode_utf8(k@).len() > 0) by {
                        if k@.len() > 0 {
                            vstd::utf8::encode_utf8_first_scalar(k@);
                        }
                    }
                }
            }
            Ok(AiCredentialStatusDto { configured })
        },
        Err(()) => Err(AiErrorDto::credential_store()),
    }
}

/// What a failed store operation becomes: `AiCredentialStoreError`.
pub fn store_outcome(stored: Result<(), ()>) -> (r: Result<(), AiErrorDto>)
    ensures
        stored is Ok ==> r is Ok,
        stored is Err ==> (r matches Err(e) && ai_error(e, AiErrorCode::AiCredentialStoreError, "无法访问 Windows 凭据库"@)),
{
    match stored {
        Ok(()) => Ok(()),
        Err(()) => Err(AiErrorDto::credential_store()),
    }
}

/// The error a transport failure becomes: a timeout is `AiTimeout`, any
/// other failure an HTTP error without status.
pub fn transport_error(timed_out: bool) -> (e: AiErrorDto)
    ensures
        timed_out ==> ai_error(e, AiErrorCode::AiTimeout, "AI 请求超时"@),
        !timed_out ==> e.code == AiErrorCode::AiHttpError && str_bytes(e.message) == http_error_message(None),
{
    if timed_out {
        AiErrorDto::timeout()
    } else {
        AiErrorDto::http_error(None)
    }
}

/// `s` without its leading whitespace.
pub open spec fn trim_start(s: Seq<char>) -> Seq<char>
    decreases s.len(),
{
    if s.len() > 0 && is_whitespace(s[0]) {
        trim_start(s.drop_first())
    } else {
        s
    }
}

/// `s` without its trailing whitespace.
pub open spec fn trim_end(s: Seq<char>) -> Seq<char>
    decreases s.len(),
{
    if s.len() > 0 && is_whitespace(s.last()) {
        trim_end(s.drop_last())
    } else {
        s
    }
}

/// `s` without leading and trailing whitespace (the Unicode White_Space
/// property), as `str::trim` gives it.
pub open spec fn trim(s: Seq<char>) -> Seq<char> {
    trim_end(trim_start(s))
}

/// The text without leading and trailing whitespace; see `trim`.
pub fn trim_text(text: &str) -> (r: String)
    ensures
        r@ == trim(text@),
{
    let mut chars: Vec<char> = Vec::new();
    for c in it: text.chars()
        invariant
            it.seq() == text@,
            chars@ == text@.take(it.index() as int),
    {
        proof {
            assert(text@.take(it.index() + 1) =~= text@.take(it.index() as int).push(c));
        }
        chars.push(c);
    }
    let ghost s = text@;
    proof {
        assert(chars@ =~= s);
        assert(s.subrange(0, s.len() as int) =~= s);
    }
    let n = chars.len();
    let mut lo: usize = 0;
    while lo < n && char_is_whitespace(chars[lo])
        invariant
            lo <= n,
            n == chars@.len(),
            chars@ == s,
            trim_start(s) == trim_start(s.subrange(lo as int, n as int)),
        decreases n - lo,
    {
        proof {
            assert(s.subrange(lo as int, n as int).drop_first() =~= s.subrange(lo + 1, n as int));
        }
        lo = lo + 1;
    }
    let mut hi: usize = n;
    proof {
        if lo < n {
            assert(s.subrange(lo as int, n as int)[0] == s[lo as int]);
        }
    }
    while hi > lo && char_is_whitespace(chars[hi - 1])
        invariant
            lo <= hi <= n,
            n == chars@.len(),
            chars@ == s,
            trim(s) == trim_end(s.subrange(lo as int, hi as int)),
        decreases hi - lo,
    {
        proof {
            assert(s.subrange(lo as int, hi as int).drop_last() =~= s.subrange(lo as int, hi - 1));
        }
        hi = hi - 1;
    }
    let mut kept: Vec<char> = Vec::new();
    let mut k: usize = lo;
    while k < hi
        invariant
            lo <= k <= hi <= n,
            n == chars@.len(),
            chars@ == s,
            kept@ == s.subrange(lo as int, k as int),
        decreases hi - k,
    {
        proof {
            assert(s.subrange(lo as int, k + 1) =~= s.subrange(lo as int, k as int).push(s[k as int]));
        }
        kept.push(chars[k]);
        k = k + 1;
    }
    proof {
        let t = s.subrange(lo as int, hi as int);
        if hi > lo {
            assert(t.last() == s[hi - 1]);
        } else {
            assert(t.len() == 0);
        }
    }
    string_from_chars(&kept)
}

/// The body of a completion request to the DeepSeek service: the model,
/// the conversation, the temperature and the response format's type.
#[derive(Debug)]
pub struct DeepSeekRequest {
    pub model: String,
    pub messages: Vec<AiChatMessageDto>,
    pub temperature: u8,
    pub response_format_type: &'static str,
}

/// Whether `body` is what is sent for `request`: its model trimmed, its
/// messages as they are, temperature 0, and a JSON-object response asked
/// for.
pub open spec fn is_deepseek_request(body: DeepSeekRequest, request: AiCompletionRequestDto) -> bool {
    &&& body.model@ == trim(request.model@)
    &&& body.messages@ == request.messages@
    &&& body.temperature == 0
    &&& body.response_format_type@ == "json_object"@
}

impl DeepSeekRequest {
    /// The body sent for `request`; see `is_deepseek_request`.
    pub fn for_completion(request: &AiCompletionRequestDto) -> (body: DeepSeekRequest)
        ensures
            is_deepseek_request(body, *request),
    {
        let mut messages: Vec<AiChatMessageDto> = Vec::new();
        let mut i: usize = 0;
        while i < request.messages.len()
            invariant
                i <= request.messages@.len(),
                messages@ == request.messages@.take(i as int),
            decreases request.messages@.len() - i,
        {
            let m = &request.messages[i];
            let copy = AiChatMessageDto { role: m.role.clone(), content: m.content.clone() };
            proof {
                assert(request.messages@.take(i + 1) =~= request.messages@.take(i as int).push(copy));
            }
            messages.push(copy);
            i = i + 1;
        }
        proof {
            assert(request.messages@.take(i as int) =~= request.messages@);
        }
        DeepSeekRequest {
            model: trim_text(request.model.as_str()),
            messages,
            temperature: 0,
            response_format_type: "json_object",
        }
    }
}

/// The step of a completion that waits for an outside answer.
#[derive(Clone, Copy, Debug, PartialEq, Eq, Structural)]
pub enum CompletionStage {
    Key,
    Response,
    Body,
    Parse,
    Finished,
}

/// A completion being fetched: the step it is at, the response bytes kept
/// so far and the most it may keep.
#[derive(Clone, Copy, Debug, PartialEq, Eq, Structural)]
pub struct CompletionRun {
    pub stage: CompletionStage,
    pub body_len: usize,
    pub response_limit: usize,
}

/// What to do next: send the request body with the key, read the next chunk of
/// the body (keeping the one just read), parse the body, or end with a
/// result.
pub enum CompletionWork {
    Send { api_key: String, body: DeepSeekRequest },
    ReadChunk,
    Parse,
    Finish(Result<String, AiErrorDto>),
}

/// Whether `w` ends the completion with `AiHttpError` for `status`.
pub open spec fn finishes_http_error(w: CompletionWork, status: Option<u16>) -> bool {
    w matches CompletionWork::Finish(Err(e)) && e.code == AiErrorCode::AiHttpError && str_bytes(e.message)
        == http_error_message(status)
}

/// Whether `w` ends the completion with error `code` and `message`.
pub open spec fn finishes_with(w: CompletionWork, code: AiErrorCode, message: Seq<char>) -> bool {
    w matches CompletionWork::Finish(Err(e)) && ai_error(e, code, message)
}

/// Whether `w` ends the completion on a transport failure.
pub open spec fn finishes_transport(w: CompletionWork, timed_out: bool) -> bool {
    if timed_out {
        finishes_with(w, AiErrorCode::AiTimeout, "AI 请求超时"@)
    } else {
        finishes_http_error(w, None)
    }
}

impl CompletionRun {
    /// A completion that may keep at most `response_limit` response bytes,
    /// waiting for the API key.
    pub fn new(response_limit: usize) -> (r: CompletionRun)
        ensures
            r == (CompletionRun { stage: CompletionStage::Key, body_len: 0, response_limit }),
    {
        CompletionRun { stage: CompletionStage::Key, body_len: 0, response_limit }
    }

    fn finish(&mut self, result: Result<String, AiErrorDto>) -> (w: CompletionWork)
        ensures
            *final(self) == (CompletionRun { stage: CompletionStage::Finished, ..*old(self) }),
            w == CompletionWork::Finish(result),
    {
        self.stage = CompletionStage::Finished;
        CompletionWork::Finish(result)
    }

    /// The stored API key: unreadable (`AiCredentialStoreError`) or absent
    /// (`AiKeyMissing`) ends the completion; otherwise the body for
    /// `request` (see `is_deepseek_request`) is sent with it.
    pub fn on_api_key(&mut self, stored: Result<Option<String>, ()>, request: &AiCompletionRequestDto) -> (w:
        CompletionWork)
        requires
            old(self).stage == CompletionStage::Key,
        ensures
            match stored {
                Err(()) => finishes_with(w, AiErrorCode::AiCredentialStoreError, "无法访问 Windows 凭据库"@)
                    && final(self).stage == CompletionStage::Finished,
                Ok(None) => finishes_with(w, AiErrorCode::AiKeyMissing, "尚未配置 DeepSeek API Key"@)
                    && final(self).stage == CompletionStage::Finished,
                Ok(Some(key)) => (w matches CompletionWork::Send { api_key, body } && api_key@ == key@
                    && is_deepseek_request(body, *request)) && final(self).stage
                    == CompletionStage::Response,
            },
            final(self).body_len == old(self).body_len,
            final(self).response_limit == old(self).response_limit,
    {
        match stored {
            Err(()) => self.finish(Err(AiErrorDto::credential_store())),
            Ok(None) => self.finish(Err(AiErrorDto::key_missing())),
            Ok(Some(api_key)) => {
                self.stage = CompletionStage::Response;
                CompletionWork::Send { api_key, body: DeepSeekRequest::for_completion(request) }
            },
        }
    }

    /// The response head: a transport failure ends the completion (see
    /// `transport_error`); a status outside 200 to 299 is an HTTP error
    /// with that status; a declared length over the limit is
    /// `AiResponseTooLarge`; otherwise the body is read.
    pub fn on_response(&mut self, response: Result<(u16, Option<u64>), bool>) -> (w: CompletionWork)
        requires
            old(self).stage == CompletionStage::Response,
        ensures
            final(self).body_len == old(self).body_len,
            final(self).response_limit == old(self).response_limit,
            match response {
                Err(timed_out) => finishes_transport(w, timed_out) && final(self).stage == CompletionStage::Finished,
                Ok((status, length)) => if !(200 <= status <= 299) {
                    finishes_http_error(w, Some(status)) && final(self).stage == CompletionStage::Finished
                } else if length matches Some(n) && n > old(self).response_limit {
                    finishes_with(w, AiErrorCode::AiResponseTooLarge, "AI 响应超过 1 MiB 上限"@) && final(self).stage
                        == CompletionStage::Finished
                } else {
                    w is ReadChunk && final(self).stage == CompletionStage::Body
                },
            },
    {
        match response {
            Err(timed_out) => self.finish(Err(transport_error(timed_out))),
            Ok((status, length)) => {
                if !(200 <= status && status <= 299) {
                    return self.finish(Err(AiErrorDto::http_error(Some(status))));
                }
                if let Some(n) = length {
                    if n > self.response_limit as u64 {
                        return self.finish(Err(AiErrorDto::response_too_large()));
                    }
                }
                self.stage = CompletionStage::Body;
                CompletionWork::ReadChunk
            },
        }
    }

    /// A chunk of the body (`Ok(Some(len))`), its end (`Ok(None)`), or a
    /// transport failure. A chunk that would take the kept bytes over the
    /// limit is `AiResponseTooLarge`; otherwise it is kept and the next one
    /// read. At the end the body is parsed.
    pub fn on_chunk(&mut self, chunk: Result<Option<usize>, bool>) -> (w: CompletionWork)
        requires
            old(self).stage == CompletionStage::Body,
        ensures
            final(self).response_limit == old(self).response_limit,
            match chunk {
                Err(timed_out) => finishes_transport(w, timed_out) && final(self).stage == CompletionStage::Finished
                    && final(self).body_len == old(self).body_len,
                Ok(None) => w is Parse && final(self).stage == CompletionStage::Parse && final(self).body_len == old(
                    self,
                ).body_len,
                Ok(Some(n)) => if old(self).body_len + n > old(self).response_limit {
                    finishes_with(w, AiErrorCode::AiResponseTooLarge, "AI 响应超过 1 MiB 上限"@) && final(self).stage
                        == CompletionStage::Finished && final(self).body_len == old(self).body_len
                } else {
                    w is ReadChunk && final(self).stage == CompletionStage::Body && final(self).body_len == old(
                        self,
                    ).body_len + n
                },
            },
    {
        match chunk {
            Err(timed_out) => self.finish(Err(transport_error(timed_out))),
            Ok(None) => {
                self.stage = CompletionStage::Parse;
                CompletionWork::Parse
            },
            Ok(Some(n)) => {
                match self.body_len.checked_add(n) {
                    Some(total) if total <= self.response_limit => {
                        self.body_len = total;
                        CompletionWork::ReadChunk
                    },
                    _ => self.finish(Err(AiErrorDto::response_too_large())),
                }
            },
        }
    }

    /// The content of the first choice of the parsed body, if it parsed and
    /// had one; otherwise `AiInvalidResponse`.
    pub fn on_parsed(&mut self, first_choice: Option<String>) -> (w: CompletionWork)
        requires
            old(self).stage == CompletionStage::Parse,
        ensures
            *final(self) == (CompletionRun { stage: CompletionStage::Finished, ..*old(self) }),
            match first_choice {
                Some(c) => w matches CompletionWork::Finish(Ok(content)) && content@ == c@,
                None => finishes_with(w, AiErrorCode::AiInvalidResponse, "AI 服务返回了无法解析的响应"@),
            },
    {
        match first_choice {
            Some(content) => self.finish(Ok(content)),
            None => self.finish(Err(AiErrorDto::invalid_response())),
        }
    }
}

/// A request id already in use is refused.
pub fn duplicate_request() -> (e: AiErrorDto)
    ensures
        ai_error(e, AiErrorCode::AiInvalidRequest, "请求 ID 正在使用"@),
{
    AiErrorDto::invalid_request("请求 ID 正在使用")
}

/// Whether `i` is where `s` holds the entry of request `request_id`.
pub open spec fn entry_at<T>(s: Seq<(Seq<char>, T)>, request_id: Seq<char>, i: int) -> bool {
    0 <= i < s.len() && s[i].0 == request_id
}

/// Whether `s` holds an entry for request `request_id`.
pub open spec fn in_flight<T>(s: Seq<(Seq<char>, T)>, request_id: Seq<char>) -> bool {
    exists|i: int| entry_at(s, request_id, i)
}

/// The completions in flight, each under its request id with the handle that
/// cancels it; no id is in flight twice.
pub struct ActiveRequests<T> {
    entries: Vec<(String, T)>,
}

impl<T> View for ActiveRequests<T> {
    type V = Seq<(Seq<char>, T)>;

    closed spec fn view(&self) -> Seq<(Seq<char>, T)> {
        self.entries@.map_values(|e: (String, T)| (e.0@, e.1))
    }
}

impl<T> ActiveRequests<T> {
    /// No request id occurs twice.
    pub open spec fn wf(&self) -> bool {
        forall|i: int, j: int| 0 <= i < j < self@.len() ==> self@[i].0 != self@[j].0
    }

    /// Nothing in flight.
    pub fn new() -> (r: Self)
        ensures
            r.wf(),
            r@ == Seq::<(Seq<char>, T)>::empty(),
    {
        ActiveRequests { entries: Vec::new() }
    }

    fn position(&self, request_id: &String) -> (r: Option<usize>)
        ensures
            match r {
                Some(i) => entry_at(self@, request_id@, i as int),
                None => !in_flight(self@, request_id@),
            },
    {
        let mut i: usize = 0;
        while i < self.entries.len()
            invariant
                i <= self.entries.len(),
                forall|j: int| 0 <= j < i ==> self@[j].0 != request_id@,
            decreases self.entries.len() - i,
        {
            if self.entries[i].0 == *request_id {
                return Some(i);
            }
            i = i + 1;
        }
        None
    }

    /// Registers request `request_id` with the handle that cancels it; an id
    /// already in flight is refused and nothing changes.
    pub fn begin(&mut self, request_id: &str, cancel: T) -> (r: Result<(), AiErrorDto>)
        requires
            old(self).wf(),
        ensures
            final(self).wf(),
            in_flight(old(self)@, request_id@) ==> (r matches Err(e) && ai_error(
                e,
                AiErrorCode::AiInvalidRequest,
                "请求 ID 正在使用"@,
            )) && final(self)@ == old(self)@,
            !in_flight(old(self)@, request_id@) ==> r is Ok && final(self)@ == old(self)@.push(
                (request_id@, cancel),
            ),
    {
        let id = request_id.to_owned();
        match self.position(&id) {
            Some(_) => Err(duplicate_request()),
            None => {
                self.entries.push((id, cancel));
                proof {
                    assert(self@ =~= old(self)@.push((request_id@, cancel)));
                    assert forall|i: int, j: int| 0 <= i < j < self@.len() implies self@[i].0 != self@[j].0 by {
                        if j == old(self)@.len() {
                            assert(!entry_at(old(self)@, request_id@, i));
                        }
                    }
                }
                Ok(())
            },
        }
    }

    /// The cancel handle of request `request_id`, if it is in flight.
    pub fn cancel_handle(&self, request_id: &str) -> (r: Option<&T>)
        requires
            self.wf(),
        ensures
            match r {
                Some(handle) => exists|i: int| entry_at(self@, request_id@, i) && *handle == self@[i].1,
                None => !in_flight(self@, request_id@),
            },
    {
        let id = request_id.to_owned();
        match self.position(&id) {
            Some(i) => Some(&self.entries[i].1),
            None => None,
        }
    }

    /// Ends request `request_id`: its entry leaves, the others stay in order.
    pub fn finish(&mut self, request_id: &str)
        requires
            old(self).wf(),
        ensures
            final(self).wf(),
            !in_flight(final(self)@, request_id@),
            in_flight(old(self)@, request_id@) ==> exists|i: int|
                entry_at(old(self)@, request_id@, i) && final(self)@ == old(self)@.remove(i),
            !in_flight(old(self)@, request_id@) ==> final(self)@ == old(self)@,
    {
        let id = request_id.to_owned();
        if let Some(i) = self.position(&id) {
            self.entries.remove(i);
            proof {
                assert(self@ =~= old(self)@.remove(i as int));
                assert forall|k: int| entry_at(self@, request_id@, k) implies false by {
                    if k < i {
                        assert(old(self)@[k].0 != old(self)@[i as int].0);
                    } else {
                        assert(self@[k] == old(self)@[k + 1]);
                    }
                }
            }
        }
    }
}

/// A completion that begins and then ends leaves the requests in flight as
/// they were before it began: finishing removes exactly the entry that
/// beginning added.
pub proof fn lemma_begin_then_finish_restores<T>(
    s: Seq<(Seq<char>, T)>,
    request_id: Seq<char>,
    cancel: T,
    i: int,
)
    requires
        !in_flight(s, request_id),
        entry_at(s.push((request_id, cancel)), request_id, i),
    ensures
        s.push((request_id, cancel)).remove(i) == s,
{
    if i < s.len() {
        assert(entry_at(s, request_id, i));
    }
    assert(s.push((request_id, cancel)).remove(i) =~= s);
}

} // verus!
