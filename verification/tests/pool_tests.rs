use agent_workbench::acp::pool::{PoolKey, ProcessPool};
use agent_workbench::types::ProcessPoolKey;

#[test]
fn model_not_in_default_key() {
    let a = PoolKey::opencode("opencode", "1.0", "/tmp/p", "auth");
    let b = PoolKey::opencode("opencode", "1.0", "/tmp/p", "auth");
    assert_eq!(a.fingerprint(), b.fingerprint());
    // Different cwd → different slot (worktree isolation)
    let c = PoolKey::opencode("opencode", "1.0", "/tmp/other", "auth");
    assert_ne!(a.fingerprint(), c.fingerprint());
}

#[test]
fn fingerprint_is_sha256_hex_of_joined_fields() {
    let k = ProcessPoolKey {
        agent: "a".to_string(),
        executable: "b".to_string(),
        version: "c".to_string(),
        cwd: "d".to_string(),
        auth_fingerprint: "e".to_string(),
    };
    // SHA-256 of "a|b|c|d|e".
    assert_eq!(k.fingerprint(), "2d4b7507de8bf3f1c304248f357c3de417fa87257fb68e22f1afe1da51c504a2");
    assert_eq!(k.fingerprint().len(), 64);
}

#[test]
fn pool_reuses_slot_per_fingerprint() {
    let mut pool = ProcessPool::new();
    assert!(pool.is_empty());
    let s1 = pool.acquire(PoolKey::opencode("opencode", "1.0", "/tmp/p", "auth"));
    let s2 = pool.acquire(PoolKey::opencode("opencode", "1.0", "/tmp/p", "auth"));
    assert_eq!(pool.len(), 1);
    assert_eq!(s1.cwd, "/tmp/p");
    assert_eq!(s2.cwd, "/tmp/p");
    assert!(!s1.include_model_in_key);
    pool.acquire(PoolKey::opencode("opencode", "1.0", "/tmp/other", "auth"));
    assert_eq!(pool.len(), 2);
    assert!(!pool.is_empty());
}
