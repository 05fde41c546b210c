use dctp::{validate_api_key, AiChatMessageDto, AiCompletionRequestDto, AiErrorCode};
use dctp::desktop::ai::{store_outcome, ActiveRequests};

fn request(model: &str, content: &str) -> AiCompletionRequestDto {
    AiCompletionRequestDto {
        request_id: "f9bc6db0-2705-4a8b-87a4-a61edf9735b3".to_owned(),
        model: model.to_owned(),
        messages: vec![AiChatMessageDto {
            role: "user".to_owned(),
            content: content.to_owned(),
        }],
    }
}

#[test]
fn accepts_a_safe_deepseek_request() {
    request("deepseek-chat", "Tune this controller")
        .validate()
        .expect("safe request should pass validation");
}

#[test]
fn rejects_unsafe_or_empty_model_names() {
    for model in [
        "",
        "../deepseek",
        "deepseek chat",
        " deepseek-chat",
        &"a".repeat(65),
    ] {
        let error = request(model, "hello")
            .validate()
            .expect_err("unsafe model must be rejected");
        assert_eq!(error.code, AiErrorCode::AiInvalidRequest);
    }
}

#[test]
fn rejects_invalid_request_ids_roles_and_message_limits() {
    let mut invalid_id = request("deepseek-chat", "hello");
    invalid_id.request_id = "not-a-uuid".to_owned();
    assert_eq!(
        invalid_id.validate().unwrap_err().code,
        AiErrorCode::AiInvalidRequest
    );

    let mut invalid_role = request("deepseek-chat", "hello");
    invalid_role.messages[0].role = "assistant".to_owned();
    assert_eq!(
        invalid_role.validate().unwrap_err().code,
        AiErrorCode::AiInvalidRequest
    );

    let too_many_messages = AiCompletionRequestDto {
        messages: (0..33)
            .map(|_| AiChatMessageDto {
                role: "user".to_owned(),
                content: "x".to_owned(),
            })
            .collect(),
        ..request("deepseek-chat", "hello")
    };
    assert_eq!(
        too_many_messages.validate().unwrap_err().code,
        AiErrorCode::AiInvalidRequest
    );

    let oversized = request("deepseek-chat", &"x".repeat(64 * 1024 + 1));
    assert_eq!(
        oversized.validate().unwrap_err().code,
        AiErrorCode::AiInvalidRequest
    );
}

#[test]
fn validation_messages_name_the_failed_check() {
    let mut request = request("deepseek-chat", "hello");
    request.request_id = "not-a-uuid".to_owned();
    assert_eq!(request.validate().unwrap_err().message, "请求 ID 必须是有效的 UUID");
    let valid = self::request("deepseek-chat", "hello");
    assert!(valid.validate_with(true).is_ok());
    assert_eq!(
        valid.validate_with(false).unwrap_err().message,
        "请求 ID 必须是有效的 UUID"
    );
    let empty = AiCompletionRequestDto { messages: Vec::new(), ..self::request("m", "x") };
    assert_eq!(empty.validate().unwrap_err().message, "消息数量必须介于 1 到 32 之间");
    let at_limit = self::request("deepseek-chat", &"x".repeat(64 * 1024));
    assert!(at_limit.validate().is_ok());
    let long_model = self::request(&"a".repeat(64), "x");
    assert!(long_model.validate().is_ok());
    let system = AiCompletionRequestDto {
        messages: vec![AiChatMessageDto { role: "system".to_owned(), content: "s".to_owned() }],
        ..self::request("deepseek-chat", "x")
    };
    assert!(system.validate().is_ok());
}

#[test]
fn api_keys_must_be_short_visible_and_free_of_control_characters() {

    assert!(validate_api_key("sk-test-secret").is_ok());
    assert!(validate_api_key(&"x".repeat(512)).is_ok());
    for invalid in ["", "  ", "line\nbreak", "\u{3000}\u{00a0}", "tab\there"] {
        let error = validate_api_key(invalid).unwrap_err();
        assert_eq!(error.code, AiErrorCode::AiInvalidRequest);
        assert_eq!(error.message, "API Key 必须为 1 到 512 字节且不能包含控制字符");
    }
    assert!(validate_api_key(&"x".repeat(513)).is_err());
    assert!(validate_api_key("a\u{85}b").is_err());
    assert!(validate_api_key(" key ").is_ok());
}

#[test]
fn a_request_id_in_flight_is_refused_until_its_completion_ends() {
    let mut active: ActiveRequests<u32> = ActiveRequests::new();
    active.begin("req-1", 10).unwrap();
    active.begin("req-2", 20).unwrap();
    let error = active.begin("req-1", 30).unwrap_err();
    assert_eq!(error.code, AiErrorCode::AiInvalidRequest);
    assert_eq!(error.message, "请求 ID 正在使用");
    assert_eq!(active.cancel_handle("req-1"), Some(&10));
    assert_eq!(active.cancel_handle("req-2"), Some(&20));
    assert_eq!(active.cancel_handle("req-3"), None);

    active.finish("req-1");
    assert_eq!(active.cancel_handle("req-1"), None);
    assert_eq!(active.cancel_handle("req-2"), Some(&20));
    active.begin("req-1", 40).unwrap();
    assert_eq!(active.cancel_handle("req-1"), Some(&40));
}

#[test]
fn finishing_an_unknown_request_changes_nothing() {
    let mut active: ActiveRequests<&str> = ActiveRequests::new();
    active.begin("a", "token-a").unwrap();
    active.finish("b");
    assert_eq!(active.cancel_handle("a"), Some(&"token-a"));
}

#[test]
fn a_failed_credential_store_call_is_reported_generically() {
    assert!(store_outcome(Ok(())).is_ok());
    let error = store_outcome(Err(())).unwrap_err();
    assert_eq!(error.code, AiErrorCode::AiCredentialStoreError);
    assert_eq!(error.message, "无法访问 Windows 凭据库");
}

fn with_id(id: &str) -> AiCompletionRequestDto {
    let mut r = request("deepseek-chat", "hello");
    r.request_id = id.to_owned();
    r
}

#[test]
fn request_ids_in_every_uuid_form_are_accepted() {
    for id in [
        "67e5504410b1426f9247bb680e5fe0c8",
        "67e55044-10b1-426f-9247-bb680e5fe0c8",
        "F9168C5E-CEB2-4faa-B6BF-329BF39FA1E4",
        "{6d93bade-bd9f-4e13-8914-9474e1e3567b}",
        "urn:uuid:67e55044-10b1-426f-9247-bb680e5fe0c8",
        "URN:Uuid:67e55044-10b1-426f-9247-bb680e5fe0c8",
    ] {
        assert!(with_id(id).validate().is_ok(), "{id}");
    }
}

#[test]
fn request_ids_outside_the_uuid_forms_are_refused() {
    for id in [
        "",
        "67e55044-10b1-426f-9247-bb680e5fe0c",
        "67e55044+10b1-426f-9247-bb680e5fe0c8",
        "g7e5504410b1426f9247bb680e5fe0c8",
        "(6d93bade-bd9f-4e13-8914-9474e1e3567b)",
        "urn:uuix:67e55044-10b1-426f-9247-bb680e5fe0c8",
        " 67e55044-10b1-426f-9247-bb680e5fe0c8",
    ] {
        let error = with_id(id).validate().unwrap_err();
        assert_eq!(error.code, AiErrorCode::AiInvalidRequest, "{id}");
    }
}
