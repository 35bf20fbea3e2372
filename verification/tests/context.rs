use ulmcp::ContextTracker;

#[test]
fn basic_tracking() {
    let mut ctx = ContextTracker::new(1000);
    assert_eq!(ctx.available(), 1000);
    assert!(ctx.use_tokens(200));
    assert_eq!(ctx.available(), 800);
    assert_eq!(ctx.used, 200);
}

#[test]
fn budget_exceeded() {
    let mut ctx = ContextTracker::new(100);
    assert!(ctx.use_tokens(90));
    assert!(!ctx.use_tokens(20)); // would exceed
    assert_eq!(ctx.used, 90); // unchanged
}

#[test]
fn reservation() {
    let mut ctx = ContextTracker::new(100);
    assert!(ctx.reserve(30));
    assert_eq!(ctx.available(), 70);
    assert!(ctx.use_tokens(60));
    assert_eq!(ctx.available(), 10);
    assert!(!ctx.use_tokens(20)); // would exceed with reservation
}

#[test]
fn release_reserve() {
    let mut ctx = ContextTracker::new(100);
    ctx.reserve(50);
    assert_eq!(ctx.available(), 50);
    ctx.release_reserve(30);
    assert_eq!(ctx.available(), 80);
}

#[test]
fn fits_text() {
    let ctx = ContextTracker::new(10000);
    assert!(ctx.fits("hello world"));
}

#[test]
fn use_tokens_exactly_available_succeeds() {
    let mut ctx = ContextTracker::new(100);
    assert!(ctx.reserve(40));
    assert!(ctx.use_tokens(60));
    assert_eq!(ctx.available(), 0);
    assert!(!ctx.use_tokens(1));
    assert!(ctx.use_tokens(0));
}

#[test]
fn reserve_refused_leaves_tracker_unchanged() {
    let mut ctx = ContextTracker::new(10);
    assert!(ctx.use_tokens(5));
    assert!(!ctx.reserve(6));
    assert_eq!(ctx.reserved, 0);
    assert_eq!(ctx.used, 5);
    assert_eq!(ctx.available(), 5);
}

#[test]
fn release_undoes_reserve() {
    let mut ctx = ContextTracker::new(100);
    assert!(ctx.use_tokens(10));
    assert!(ctx.reserve(25));
    ctx.release_reserve(25);
    assert_eq!(ctx.used, 10);
    assert_eq!(ctx.reserved, 0);
    assert_eq!(ctx.available(), 90);
}

#[test]
fn release_more_than_reserved_saturates() {
    let mut ctx = ContextTracker::new(100);
    assert!(ctx.reserve(5));
    ctx.release_reserve(50);
    assert_eq!(ctx.reserved, 0);
    assert_eq!(ctx.available(), 100);
}

#[test]
fn available_is_zero_when_over_budget() {
    let ctx = ContextTracker { budget: 10, used: 8, reserved: 7 };
    assert_eq!(ctx.available(), 0);
    assert!(!ctx.fits_count(1));
    assert!(ctx.fits_count(0));
}

#[test]
fn token_estimates() {
    let ctx = ContextTracker::new(100);
    assert_eq!(ctx.estimate_text(""), 0);
    assert!(ctx.estimate_text("hello") >= 1);
    assert!(ctx.fits(""));
    let tiny = ContextTracker::new(0);
    assert!(tiny.fits(""));
    assert!(!tiny.fits("hello"));
}

#[test]
fn fits_agrees_with_use_tokens() {
    let mut ctx = ContextTracker::new(50);
    let n = ctx.estimate_text("The quick brown fox jumps over the lazy dog.");
    let fits = ctx.fits("The quick brown fox jumps over the lazy dog.");
    assert_eq!(fits, ctx.use_tokens(n));
}
