use lekha_auth::assist_dto::{default_limit, AssistRequest};
use lekha_auth::gemini_mock::MockGeminiClient;
use lekha_auth::memo_dto::{CreateMemoRequest, UpdateMemoRequest};

#[test]
fn mock_client_dimension() {
    let c = MockGeminiClient::new();
    assert_eq!(c.dimension(), 768);
    assert_eq!(MockGeminiClient::default(), c);
}

#[test]
fn assist_request_default_limit() {
    assert_eq!(default_limit(), 5);
    let r = AssistRequest::new("Tell me about Rust".to_string());
    assert_eq!(r.limit, 5);
    assert_eq!(r.prompt, "Tell me about Rust");
}

#[test]
fn memo_requests_carry_content() {
    let c = CreateMemoRequest { content: "Test memo content".to_string() };
    let u = UpdateMemoRequest { content: "Updated content".to_string() };
    assert_eq!(c.content, "Test memo content");
    assert_eq!(u.content, "Updated content");
}
