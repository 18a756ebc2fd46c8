use komrad::conversation::{
    Conversation, ConversationContent, ConversationEvent, ConversationMessage, Participant, ParticipantRole,
    Timeframe,
};

#[test]
fn test_conversation_creation() {
    let participant = Participant {
        id: "user1".to_string(),
        name: "Alice".to_string(),
        role: ParticipantRole::User,
    };

    let message = ConversationMessage {
        id: "msg1".to_string(),
        timestamp: Timeframe { start: chrono::Utc::now().timestamp_millis(), end: None },
        sender: participant.clone(),
        content: vec![ConversationContent::Text("Hello, world!".to_string())],
    };

    let conversation = Conversation {
        id: "conv1".to_string(),
        timestamp: Timeframe { start: chrono::Utc::now().timestamp_millis(), end: None },
        events: vec![ConversationEvent::Message(message)],
    };

    assert_eq!(conversation.id, "conv1");
    assert_eq!(conversation.events.len(), 1);
}
