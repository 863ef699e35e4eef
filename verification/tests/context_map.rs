use flowstate::{AsyncContext, Context, TypedKey};

#[test]
fn context_get_after_insert() {
    let mut ctx: Context<u32> = Context::new();
    assert_eq!(ctx.insert(TypedKey::new("answer"), 42), None);
    assert_eq!(ctx.get(&TypedKey::new("answer")), Some(&42));
    assert_eq!(ctx.get(&TypedKey::new("question")), None);
}

#[test]
fn context_insert_returns_previous_value() {
    let mut ctx: Context<&'static str> = Context::default();
    assert_eq!(ctx.insert(TypedKey::new("k"), "first"), None);
    assert_eq!(ctx.insert(TypedKey::new("k"), "second"), Some("first"));
    assert_eq!(ctx.get(&TypedKey::new("k")), Some(&"second"));
    assert_eq!(ctx.keys().len(), 1);
}

#[test]
fn context_remove_undoes_insert() {
    let mut ctx: Context<u8> = Context::new();
    ctx.insert(TypedKey::new("kept"), 1);
    ctx.insert(TypedKey::new("gone"), 2);
    assert_eq!(ctx.remove(&TypedKey::new("gone")), Some(2));
    assert_eq!(ctx.remove(&TypedKey::new("gone")), None);
    assert_eq!(ctx.get(&TypedKey::new("gone")), None);
    assert_eq!(ctx.get(&TypedKey::new("kept")), Some(&1));
}

#[test]
fn context_keys_are_listed_in_byte_order() {
    let mut ctx: Context<u8> = Context::new();
    for (i, k) in ["b", "a.b.c.1", "a", "a.b.c.0", "B", "ab", "é", "z"].iter().enumerate() {
        ctx.insert(TypedKey::new(k), i as u8);
    }
    let keys: Vec<&str> = ctx.keys().iter().map(|k| k.key()).collect();
    assert_eq!(keys, vec!["B", "a", "a.b.c.0", "a.b.c.1", "ab", "b", "z", "é"]);
}

#[test]
fn context_empty_key_is_a_key() {
    let mut ctx: Context<i64> = Context::new();
    ctx.insert(TypedKey::new(""), -1);
    ctx.insert(TypedKey::new("x"), 1);
    let keys: Vec<&str> = ctx.keys().iter().map(|k| k.key()).collect();
    assert_eq!(keys, vec!["", "x"]);
    assert_eq!(ctx.get(&TypedKey::new("")), Some(&-1));
}

#[test]
fn typed_key_keeps_its_name() {
    let key: TypedKey<u8> = TypedKey::new("span");
    assert_eq!(key.raw().key(), "span");
    assert_eq!(key.raw().clone(), *key.raw());
}

#[test]
fn async_context_get_insert_remove() {
    let mut ctx: AsyncContext<String> = AsyncContext::default();
    assert_eq!(ctx.insert(TypedKey::new("a"), "x".to_string()), None);
    assert_eq!(ctx.get(&TypedKey::new("a")), Some(&"x".to_string()));
    assert_eq!(ctx.insert(TypedKey::new("a"), "y".to_string()), Some("x".to_string()));
    assert_eq!(ctx.remove(&TypedKey::new("a")), Some("y".to_string()));
    assert_eq!(ctx.get(&TypedKey::new("a")), None);
}
