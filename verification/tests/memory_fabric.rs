use service_fabric::memory::{
    acknowledge_message, calculate_checksum, MemoryError, Message, MessageData, MessageHandler,
    MessagePassingSystem, MessagePriority, OcamlMessageHandler, SharedMemoryManager,
    MAX_INLINE_SIZE,
};

#[test]
fn test_shared_memory_allocation() {
    let mut manager = SharedMemoryManager::new();
    let data = vec![1, 2, 3, 4, 5];

    let shared_ref = manager.allocate_block(data.clone(), "test").unwrap();
    let read_data = manager.read_block(&shared_ref).unwrap();

    assert_eq!(data, read_data);
}

#[test]
fn test_message_creation() {
    let mut system = MessagePassingSystem::new();
    let small_data = vec![1, 2, 3];
    let large_data = vec![0; 2048];

    let small_msg = system
        .create_message("sender", "recipient", "test", small_data, MessagePriority::Normal)
        .unwrap();
    let large_msg = system
        .create_message("sender", "recipient", "test", large_data, MessagePriority::Normal)
        .unwrap();

    assert!(matches!(small_msg.data, MessageData::Inline(_)));
    assert!(matches!(large_msg.data, MessageData::SharedRef(_)));
}

#[test]
fn test_message_system_memory() {
    let mut system = MessagePassingSystem::new();
    let large_data = vec![0u8; 10 * 1024 * 1024];

    for _i in 0..10 {
        let message = system
            .create_message(
                "test_sender",
                "test_recipient",
                "test_method",
                large_data.clone(),
                MessagePriority::Normal,
            )
            .unwrap();

        let _data = system.get_message_data(&message).unwrap();
        system.cleanup_message(&message).unwrap();
    }

    let stats = system.get_memory_stats();
    assert!(stats.total_size < 1024 * 1024);
}

#[test]
fn test_memory_pressure_handling() {
    let mut system = MessagePassingSystem::new();

    let mut messages = vec![];
    for i in 0..50 {
        let large_data = vec![i as u8; 1024 * 1024];
        let message = system
            .create_message("pressure_test", "recipient", "method", large_data, MessagePriority::Normal)
            .unwrap();
        messages.push(message);
    }

    let initial_stats = system.get_memory_stats();

    for message in messages.iter().take(25) {
        system.cleanup_message(message).unwrap();
    }

    let after_cleanup_stats = system.get_memory_stats();
    assert!(after_cleanup_stats.total_size < initial_stats.total_size);
}

#[test]
fn test_shared_memory_cleanup() {
    let mut manager = SharedMemoryManager::new();
    let mut refs = vec![];

    for i in 0..100 {
        let data = vec![i as u8; 1024];
        let shared_ref = manager.allocate_block(data, "test").unwrap();
        refs.push(shared_ref);
    }

    let stats_before = manager.get_memory_stats();
    assert_eq!(stats_before.total_blocks, 100);

    for i in 0..50 {
        manager.deallocate_block(refs[i].block_id).unwrap();
    }

    let stats_after = manager.get_memory_stats();
    assert!(stats_after.total_blocks <= 50);
}

#[test]
fn test_alloc_read_free_cycles() {
    let mut manager = SharedMemoryManager::new();

    for task_id in 0..10 {
        for i in 0..100 {
            let data = vec![task_id as u8, i as u8];
            let shared_ref = manager.allocate_block(data.clone(), "cycle_test").unwrap();
            let read_data = manager.read_block(&shared_ref).unwrap();
            assert_eq!(data, read_data);
            manager.deallocate_block(shared_ref.block_id).unwrap();
        }
    }

    let final_stats = manager.get_memory_stats();
    assert_eq!(final_stats.total_blocks, 0);
}

#[test]
fn test_inline_vs_shared_boundary() {
    let mut system = MessagePassingSystem::new();
    assert_eq!(MAX_INLINE_SIZE, 1024);

    let at_boundary = vec![0u8; 1024];
    let over_boundary = vec![0u8; 1025];

    let inline_msg = system
        .create_message("s", "r", "m", at_boundary, MessagePriority::Low)
        .unwrap();
    assert!(matches!(inline_msg.data, MessageData::Inline(ref b) if b.len() == 1024));

    let shared_msg = system
        .create_message("s", "r", "m", over_boundary.clone(), MessagePriority::High)
        .unwrap();
    let first_checksum = match &shared_msg.data {
        MessageData::SharedRef(r) => {
            assert_eq!(r.size, 1025);
            r.checksum
        }
        MessageData::Inline(_) => panic!("payload over the threshold must be shared"),
    };

    // the checksum is a function of the bytes alone
    assert_eq!(first_checksum, calculate_checksum(&over_boundary));
    let shared_again = system
        .create_message("s", "r", "m", over_boundary, MessagePriority::High)
        .unwrap();
    match &shared_again.data {
        MessageData::SharedRef(r) => assert_eq!(r.checksum, first_checksum),
        MessageData::Inline(_) => panic!("payload over the threshold must be shared"),
    }
}

#[test]
fn test_allocate_read_roundtrip_at() {
    let mut manager = SharedMemoryManager::new();
    let data = vec![7u8, 8, 9, 10];

    let r = manager.allocate_block_at(data.clone(), "owner", 1000).unwrap();
    assert_eq!(r.size, 4);
    assert_eq!(r.expires_at, 1300);
    assert_eq!(r.checksum, calculate_checksum(&data));

    // readable right away and up to the expiry instant
    assert_eq!(manager.read_block_at(&r, 1000).unwrap(), data);
    assert_eq!(manager.read_block_at(&r, 1300).unwrap(), data);
}

#[test]
fn test_ttl_expiry() {
    let mut manager = SharedMemoryManager::new();
    let r = manager.allocate_block_at(vec![1u8, 2, 3], "owner", 1000).unwrap();

    match manager.read_block_at(&r, 1301) {
        Err(MemoryError::BlockExpired(id)) => assert_eq!(id, r.block_id),
        other => panic!("expected BlockExpired, got {:?}", other.map(|_| ())),
    }
}

#[test]
fn test_sweeper_removes_only_expired() {
    let mut manager = SharedMemoryManager::new();
    let r1 = manager.allocate_block_at(vec![1u8], "owner", 1000).unwrap();
    let r2 = manager.allocate_block_at(vec![2u8], "owner", 1500).unwrap();

    // at 1400 the first block's time-to-live (created 1000) has passed
    let removed = manager.cleanup_expired_blocks(1400);
    assert_eq!(removed, 1);
    assert!(matches!(
        manager.read_block_at(&r1, 1300),
        Err(MemoryError::BlockNotFound(_))
    ));
    assert_eq!(manager.read_block_at(&r2, 1500).unwrap(), vec![2u8]);
}

#[test]
fn test_corruption_detected() {
    let mut manager = SharedMemoryManager::new();
    let mut r = manager.allocate_block_at(vec![5u8, 6, 7], "owner", 1000).unwrap();
    r.checksum ^= 1;

    match manager.read_block_at(&r, 1000) {
        Err(MemoryError::Corruption(id)) => assert_eq!(id, r.block_id),
        other => panic!("expected Corruption, got {:?}", other.map(|_| ())),
    }
}

#[test]
fn test_deallocate_unknown_block() {
    let mut manager = SharedMemoryManager::new();
    match manager.deallocate_block(42) {
        Err(MemoryError::BlockNotFound(id)) => assert_eq!(id, 42),
        other => panic!("expected BlockNotFound, got {:?}", other),
    }
}

#[test]
fn test_checksum_known_value() {
    // 64-bit FNV-1a of the single byte 'a'
    assert_eq!(calculate_checksum(&vec![0x61u8]), 0xaf63dc4c8601ec8c);
    // the offset basis for empty input
    assert_eq!(calculate_checksum(&Vec::new()), 0xcbf29ce484222325);
}

#[test]
fn test_memory_stats_mean() {
    let mut manager = SharedMemoryManager::new();
    let r1 = manager.allocate_block_at(vec![1u8, 2], "o", 1000).unwrap();
    let r2 = manager.allocate_block_at(vec![3u8, 4, 5], "o", 1000).unwrap();

    for _ in 0..3 {
        manager.read_block_at(&r1, 1000).unwrap();
    }
    manager.read_block_at(&r2, 1000).unwrap();

    let stats = manager.get_memory_stats();
    assert_eq!(stats.total_blocks, 2);
    assert_eq!(stats.total_size, 5);
    // four accesses over two blocks
    assert_eq!(stats.average_access_count, 2);
}

#[test]
fn test_message_handler_acknowledges() {
    let mut system = MessagePassingSystem::new();
    system.register_handler("parse", Box::new(OcamlMessageHandler));

    let message: Message = system
        .create_message("shell", "parser", "parse", vec![1, 2, 3], MessagePriority::Critical)
        .unwrap();
    let reply = OcamlMessageHandler.handle_message(message).unwrap();
    assert_eq!(reply.sender, "parser");
    assert_eq!(reply.recipient, "shell");
    assert_eq!(reply.method, "parse_response");
    assert!(matches!(reply.data, MessageData::Inline(ref b) if b == b"success"));
    assert!(matches!(reply.priority, MessagePriority::Critical));
}

#[test]
fn test_send_message_reads_payload() {
    let mut system = MessagePassingSystem::new();
    let message = system
        .create_message("a", "b", "m", vec![9u8; 10], MessagePriority::Low)
        .unwrap();
    system.send_message(message).unwrap();

    // a message whose shared buffer is gone can no longer be sent
    let message = system
        .create_message("a", "b", "m", vec![9u8; 4096], MessagePriority::Low)
        .unwrap();
    system.cleanup_message(&message).unwrap();
    assert!(system.send_message(message).is_err());
}

#[test]
fn test_acknowledge_message_fields() {
    let mut system = MessagePassingSystem::new();
    let message: Message = system
        .create_message("shell", "parser", "parse", vec![1, 2, 3], MessagePriority::High)
        .unwrap();
    let reply = acknowledge_message(message, 42, 777);
    assert_eq!(reply.id, 42);
    assert_eq!(reply.timestamp, 777);
    assert_eq!(reply.sender, "parser");
    assert_eq!(reply.recipient, "shell");
    assert_eq!(reply.method, "parse_response");
    assert!(matches!(reply.data, MessageData::Inline(ref b) if b == b"success"));
    assert!(matches!(reply.priority, MessagePriority::High));
}
